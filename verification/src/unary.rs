//! The whole response to a chat request.
use crate::logprobs::{chat_logprobs, chat_logprobs_view};
use crate::response::{ChunkEvent, ChunkExtras};
use crate::status::Failure;
use crate::text::{nonempty, nonempty_text};
use crate::tools::{
    chat_finish_reason, chunk_finish, message_parts, parse_chat_tool_calls, ToolParse,
};
use crate::usage::{usage_of, OutputCount};
use crate::wire::{
    calls_view, choices_view, ChatChoice, ChatChoiceLogprobs, ChatCompletionMessageContent,
    ChatCompletionResponseMessage, ChoiceView, CreateChatCompletionResponse, FinishReason, Role,
    ServiceTier,
};
use vstd::prelude::*;

verus! {

/// A finished generation: its collected output, the reasoning and the answer that its
/// text was split into, and what the tool parser made of the answer.
#[derive(Debug, Clone, PartialEq)]
pub struct CompletedChoice<P> {
    pub index: usize,
    pub output: ChunkEvent<P>,
    pub reasoning_text: String,
    pub text: String,
    pub parsed: Option<ToolParse>,
}

/// The index of a choice on the wire, which stops at the largest that it can hold.
pub open spec fn wire_index(index: usize) -> u32 {
    if index <= u32::MAX {
        index as u32
    } else {
        u32::MAX
    }
}

/// The index of a choice on the wire.
pub fn choice_index(index: usize) -> (r: u32)
    ensures
        r == wire_index(index),
{
    if index <= 0xffff_ffff {
        index as u32
    } else {
        0xffff_ffff
    }
}

/// The outputs of finished generations.
pub open spec fn outputs_of<P>(completed: Seq<CompletedChoice<P>>) -> Seq<ChunkEvent<P>> {
    Seq::new(completed.len(), |i: int| completed[i].output)
}

/// The log probabilities of a chunk can be shaped.
pub open spec fn shapeable<P>(extras: Option<ChunkExtras<P>>) -> bool {
    extras matches Some(extras) ==> extras.well_sliced()
}

/// The choice that a finished generation becomes.
pub open spec fn unary_choice<P>(
    completed: CompletedChoice<P>,
    want_logprobs: bool,
    parallel_tool_calls: bool,
) -> ChoiceView<P> {
    let (content, tool_calls) = message_parts(
        completed.text@,
        completed.parsed,
        parallel_tool_calls,
    );
    ChoiceView {
        index: wire_index(completed.index),
        content: nonempty(content),
        refusal: None,
        tool_calls,
        role: Role::Assistant,
        function_call: None,
        reasoning_content: nonempty(completed.reasoning_text@),
        finish_reason: if tool_calls is Some {
            Some(FinishReason::ToolCalls)
        } else {
            chunk_finish(completed.output)
        },
        logprobs: if want_logprobs {
            Some(chat_logprobs_view(completed.output.extras))
        } else {
            None
        },
    }
}

fn completed_choice<P: Copy>(
    completed: CompletedChoice<P>,
    want_logprobs: bool,
    parallel_tool_calls: bool,
) -> (r: ChatChoice<P>)
    requires
        want_logprobs ==> shapeable(completed.output.extras),
    ensures
        r@ == unary_choice(completed, want_logprobs, parallel_tool_calls),
{
    let logprobs = if want_logprobs {
        Some(chat_logprobs(completed.output.extras.as_ref()))
    } else {
        None
    };
    let finish_reason = chat_finish_reason(&completed.output);
    let (content, tool_calls) = parse_chat_tool_calls(
        completed.text,
        completed.parsed,
        parallel_tool_calls,
    );
    let finish_reason = if tool_calls.is_some() {
        Some(FinishReason::ToolCalls)
    } else {
        finish_reason
    };
    let message = ChatCompletionResponseMessage {
        content: match nonempty_text(content) {
            Some(text) => Some(ChatCompletionMessageContent::Text(text)),
            None => None,
        },
        refusal: None,
        tool_calls,
        role: Role::Assistant,
        function_call: None,
        reasoning_content: nonempty_text(completed.reasoning_text),
    };
    ChatChoice { index: choice_index(completed.index), message, finish_reason, logprobs }
}

/// The generations that were collected, up to the first that failed.
pub open spec fn collected_choices<P>(
    collected: Seq<Result<CompletedChoice<P>, Failure>>,
) -> Seq<CompletedChoice<P>>
    decreases collected.len(),
{
    if collected.len() == 0 || collected[0] is Err {
        Seq::empty()
    } else {
        seq![collected[0]->Ok_0] + collected_choices(collected.drop_first())
    }
}

/// The failure of the first generation that failed, where one did.
pub open spec fn first_failure<P>(collected: Seq<Result<CompletedChoice<P>, Failure>>) -> Option<
    Failure,
>
    decreases collected.len(),
{
    if collected.len() == 0 {
        None
    } else {
        match collected[0] {
            Ok(_) => first_failure(collected.drop_first()),
            Err(failure) => Some(failure),
        }
    }
}

/// The response to a chat request, once its generations were collected.
pub open spec fn is_response<P>(
    response: CreateChatCompletionResponse<P>,
    completed: Seq<CompletedChoice<P>>,
    response_id: String,
    model: String,
    created: u32,
    want_logprobs: bool,
    parallel_tool_calls: bool,
    service_tier: Option<ServiceTier>,
) -> bool {
    &&& response.id == response_id
    &&& choices_view(response.choices@) == Seq::new(
        completed.len(),
        |i: int| unary_choice(completed[i], want_logprobs, parallel_tool_calls),
    )
    &&& response.created == created
    &&& response.model == model
    &&& response.service_tier == service_tier
    &&& response.system_fingerprint is None
    &&& response.object@ == "chat.completion"@
    &&& response.usage == Some(usage_of(outputs_of(completed)))
}

/// The answer to a chat request, given how its generations ended, in the order of the
/// choices: the failure of the first that failed, else one response with a choice per
/// generation and the tokens that they took together.
pub fn unary_chat<P: Copy>(
    collected: Vec<Result<CompletedChoice<P>, Failure>>,
    response_id: String,
    model: String,
    created: u32,
    want_logprobs: bool,
    parallel_tool_calls: bool,
    service_tier: Option<ServiceTier>,
) -> (r: Result<CreateChatCompletionResponse<P>, Failure>)
    requires
        want_logprobs ==> forall|i: int|
            0 <= i < collected.len() ==> ((#[trigger] collected[i]) matches Ok(completed)
                ==> shapeable(completed.output.extras)),
    ensures
        match first_failure(collected@) {
            Some(failure) => r == Err::<CreateChatCompletionResponse<P>, Failure>(failure),
            None => r matches Ok(response) && is_response(
                response,
                collected_choices(collected@),
                response_id,
                model,
                created,
                want_logprobs,
                parallel_tool_calls,
                service_tier,
            ),
        },
{
    let ghost all = collected@;
    let ghost completed = collected_choices(all);
    let mut choices: Vec<ChatChoice<P>> = Vec::new();
    let mut tokens = OutputCount::new();
    assert(outputs_of(completed.take(0)) =~= Seq::empty());
    assert(all.skip(0) =~= all);
    for item in iter: collected
        invariant
            iter.seq() == all,
            completed == collected_choices(all),
            iter.index() <= completed.len(),
            choices.len() == iter.index(),
            collected_choices(all.skip(iter.index())) == completed.skip(iter.index()),
            first_failure(all.skip(iter.index())) == first_failure(all),
            tokens.outputs() == outputs_of(completed.take(iter.index())),
            want_logprobs ==> forall|i: int|
                0 <= i < all.len() ==> ((#[trigger] all[i]) matches Ok(completed) ==> shapeable(
                    completed.output.extras,
                )),
            forall|i: int|
                0 <= i < choices.len() ==> (#[trigger] choices[i])@ == unary_choice(
                    completed[i],
                    want_logprobs,
                    parallel_tool_calls,
                ),
    {
        let ghost rest = all.skip(iter.index());
        assert(rest[0] == item);
        assert(rest.drop_first() =~= all.skip(iter.index() + 1));
        match item {
            Ok(choice) => {
                proof {
                    let done = completed.take(iter.index());
                    let tail = completed.skip(iter.index());
                    assert(tail[0] == choice);
                    assert(tail.drop_first() =~= completed.skip(iter.index() + 1));
                    assert(tail.drop_first() =~= collected_choices(rest.drop_first()));
                    assert(outputs_of(completed.take(iter.index() + 1)) =~= outputs_of(done).push(
                        choice.output,
                    ));
                }
                tokens.count(&choice.output);
                choices.push(completed_choice(choice, want_logprobs, parallel_tool_calls));
            },
            Err(failure) => {
                return Err(failure);
            },
        }
    }
    proof {
        assert(all.skip(all.len() as int) =~= Seq::empty());
        assert(completed.take(completed.len() as int) =~= completed);
    }
    assert(choices_view(choices@) =~= Seq::new(
        completed.len(),
        |i: int| unary_choice(completed[i], want_logprobs, parallel_tool_calls),
    ));
    Ok(
        CreateChatCompletionResponse {
            id: response_id,
            choices,
            created,
            model,
            service_tier,
            system_fingerprint: None,
            object: "chat.completion".to_owned(),
            usage: Some(tokens.usage()),
        },
    )
}

/// Where no generation failed, the response has a choice for each of them, in order.
pub proof fn law_every_generation_is_answered<P>(
    collected: Seq<Result<CompletedChoice<P>, Failure>>,
)
    requires
        forall|i: int| 0 <= i < collected.len() ==> (#[trigger] collected[i]) is Ok,
    ensures
        first_failure(collected) is None,
        collected_choices(collected).len() == collected.len(),
        forall|i: int|
            0 <= i < collected.len() ==> collected_choices(collected)[i]
                == (#[trigger] collected[i])->Ok_0,
    decreases collected.len(),
{
    if collected.len() > 0 {
        let rest = collected.drop_first();
        law_every_generation_is_answered(rest);
        assert forall|i: int| 0 <= i < collected.len() implies collected_choices(collected)[i] == (
        #[trigger] collected[i])->Ok_0 by {
            if i > 0 {
                assert(rest[i - 1] == collected[i]);
            }
        }
    }
}

/// Where generations failed, the first failure in the order of the choices is the answer.
pub proof fn law_first_failure_is_the_answer<P>(
    collected: Seq<Result<CompletedChoice<P>, Failure>>,
    failed: int,
)
    requires
        0 <= failed < collected.len(),
        collected[failed] is Err,
        forall|i: int| 0 <= i < failed ==> (#[trigger] collected[i]) is Ok,
    ensures
        first_failure(collected) == Some(collected[failed]->Err_0),
    decreases failed,
{
    if failed > 0 {
        law_first_failure_is_the_answer(collected.drop_first(), failed - 1);
    }
}

/// The index of a choice is kept as far as the wire can hold it.
pub proof fn law_indices_are_kept(index: usize, r: u32)
    requires
        call_ensures(choice_index, (index,), r),
    ensures
        index <= u32::MAX ==> r == index,
        index > u32::MAX ==> r == u32::MAX,
{
}

/// Where a generation failed and none before it did, its status and its message are the
/// answer.
pub proof fn law_a_failed_generation_is_the_answer<P: Copy>(
    collected: Vec<Result<CompletedChoice<P>, Failure>>,
    response_id: String,
    model: String,
    created: u32,
    want_logprobs: bool,
    parallel_tool_calls: bool,
    service_tier: Option<ServiceTier>,
    r: Result<CreateChatCompletionResponse<P>, Failure>,
    failed: int,
)
    requires
        call_ensures(
            unary_chat::<P>,
            (
                collected,
                response_id,
                model,
                created,
                want_logprobs,
                parallel_tool_calls,
                service_tier,
            ),
            r,
        ),
        0 <= failed < collected@.len(),
        collected@[failed] is Err,
        forall|i: int| 0 <= i < failed ==> (#[trigger] collected@[i]) is Ok,
    ensures
        r is Err,
        r->Err_0.status == collected@[failed]->Err_0.status,
        r->Err_0.message@ == collected@[failed]->Err_0.message@,
{
    law_first_failure_is_the_answer(collected@, failed);
}

/// Where no generation failed there is a response, with what the request named, one choice
/// per generation, and the usage of their outputs together.
pub proof fn law_a_whole_response<P: Copy>(
    collected: Vec<Result<CompletedChoice<P>, Failure>>,
    response_id: String,
    model: String,
    created: u32,
    want_logprobs: bool,
    parallel_tool_calls: bool,
    service_tier: Option<ServiceTier>,
    r: Result<CreateChatCompletionResponse<P>, Failure>,
)
    requires
        call_ensures(
            unary_chat::<P>,
            (
                collected,
                response_id,
                model,
                created,
                want_logprobs,
                parallel_tool_calls,
                service_tier,
            ),
            r,
        ),
        forall|i: int| 0 <= i < collected@.len() ==> (#[trigger] collected@[i]) is Ok,
    ensures
        r is Ok,
        r->Ok_0.id@ == response_id@,
        r->Ok_0.model@ == model@,
        r->Ok_0.created == created,
        r->Ok_0.service_tier == service_tier,
        r->Ok_0.system_fingerprint is None,
        r->Ok_0.object@ == "chat.completion"@,
        r->Ok_0.choices@.len() == collected@.len(),
        r->Ok_0.usage == Some(
            usage_of(Seq::new(collected@.len(), |i: int| collected@[i]->Ok_0.output)),
        ),
{
    law_every_generation_is_answered(collected@);
    let completed = collected_choices(collected@);
    let outputs = Seq::new(collected@.len(), |i: int| collected@[i]->Ok_0.output);
    assert forall|i: int| 0 <= i < collected@.len() implies completed[i].output == outputs[i] by {
        assert(completed[i] == collected@[i]->Ok_0);
    }
    assert(outputs_of(completed) =~= outputs);
    assert(choices_view(r->Ok_0.choices@).len() == collected@.len());
}

proof fn lemma_choice_of_a_generation<P: Copy>(
    collected: Seq<Result<CompletedChoice<P>, Failure>>,
    answer: Result<CreateChatCompletionResponse<P>, Failure>,
    want_logprobs: bool,
    parallel_tool_calls: bool,
    i: int,
)
    requires
        forall|k: int| 0 <= k < collected.len() ==> (#[trigger] collected[k]) is Ok,
        first_failure(collected) is None ==> answer is Ok && exists|
            response_id: String,
            model: String,
            created: u32,
            service_tier: Option<ServiceTier>,
        |
            #[trigger]
            is_response(
                answer->Ok_0,
                collected_choices(collected),
                response_id,
                model,
                created,
                want_logprobs,
                parallel_tool_calls,
                service_tier,
            ),
        0 <= i < collected.len(),
    ensures
        answer is Ok,
        answer->Ok_0.choices@.len() == collected.len(),
        answer->Ok_0.choices@[i]@ == unary_choice(
            collected[i]->Ok_0,
            want_logprobs,
            parallel_tool_calls,
        ),
{
    law_every_generation_is_answered(collected);
    let choices = answer->Ok_0.choices@;
    assert(choices_view(choices).len() == choices.len());
    assert(choices_view(choices)[i] == choices[i]@);
    assert(collected_choices(collected)[i] == collected[i]->Ok_0);
}

/// The reasoning of a choice, its index and its role are those of its own generation,
/// whatever the tool parser found and whatever the other generations are.
pub proof fn law_choices_keep_their_reasoning<P: Copy>(
    collected: Vec<Result<CompletedChoice<P>, Failure>>,
    response_id: String,
    model: String,
    created: u32,
    want_logprobs: bool,
    parallel_tool_calls: bool,
    service_tier: Option<ServiceTier>,
    r: Result<CreateChatCompletionResponse<P>, Failure>,
    i: int,
)
    requires
        call_ensures(
            unary_chat::<P>,
            (
                collected,
                response_id,
                model,
                created,
                want_logprobs,
                parallel_tool_calls,
                service_tier,
            ),
            r,
        ),
        forall|k: int| 0 <= k < collected@.len() ==> (#[trigger] collected@[k]) is Ok,
        0 <= i < collected@.len(),
    ensures
        ({
            let completed = collected@[i]->Ok_0;
            let choice = r->Ok_0.choices@[i];
            &&& completed.reasoning_text@.len() > 0 ==> choice.message.reasoning_content is Some
                && choice.message.reasoning_content->Some_0@ == completed.reasoning_text@
            &&& completed.reasoning_text@.len() == 0 ==> choice.message.reasoning_content is None
            &&& choice.message.role == Role::Assistant
            &&& choice.message.refusal is None
            &&& choice.message.function_call is None
            &&& completed.index <= u32::MAX ==> choice.index == completed.index
            &&& completed.index > u32::MAX ==> choice.index == u32::MAX
        }),
{
    lemma_choice_of_a_generation(
        collected@,
        r,
        want_logprobs,
        parallel_tool_calls,
        i,
    );
}

/// A generation in which calls were parsed is delivered with the calls, each as it was
/// parsed, with the text that is no call, and with tool calls as its finish reason, whatever
/// the scheduler gave as its own.
pub proof fn law_choices_with_calls<P: Copy>(
    collected: Vec<Result<CompletedChoice<P>, Failure>>,
    response_id: String,
    model: String,
    created: u32,
    want_logprobs: bool,
    parallel_tool_calls: bool,
    service_tier: Option<ServiceTier>,
    r: Result<CreateChatCompletionResponse<P>, Failure>,
    i: int,
)
    requires
        call_ensures(
            unary_chat::<P>,
            (
                collected,
                response_id,
                model,
                created,
                want_logprobs,
                parallel_tool_calls,
                service_tier,
            ),
            r,
        ),
        forall|k: int| 0 <= k < collected@.len() ==> (#[trigger] collected@[k]) is Ok,
        0 <= i < collected@.len(),
        collected@[i]->Ok_0.parsed is Some,
        collected@[i]->Ok_0.parsed->Some_0.calls@.len() > 0,
    ensures
        ({
            let parse = collected@[i]->Ok_0.parsed->Some_0;
            let choice = r->Ok_0.choices@[i];
            let calls = choice.message.tool_calls->Some_0@;
            &&& choice.finish_reason == Some(FinishReason::ToolCalls)
            &&& choice.message.tool_calls is Some
            &&& parallel_tool_calls ==> calls.len() == parse.calls@.len()
            &&& !parallel_tool_calls ==> calls.len() == 1
            &&& forall|k: int|
                0 <= k < calls.len() ==> (#[trigger] calls[k]).id@ == parse.calls@[k].id@
                    && calls[k].function.name@ == parse.calls@[k].name@
                    && calls[k].function.arguments@ == parse.calls@[k].arguments@
            &&& parse.normal is Some && parse.normal->Some_0@.len() > 0
                ==> choice.message.content is Some
                && choice.message.content->Some_0->Text_0@ == parse.normal->Some_0@
            &&& parse.normal is None || parse.normal->Some_0@.len() == 0
                ==> choice.message.content is None
        }),
{
    let completed = collected@[i]->Ok_0;
    let choice = r->Ok_0.choices@[i];
    lemma_choice_of_a_generation(
        collected@,
        r,
        want_logprobs,
        parallel_tool_calls,
        i,
    );
    let parse = completed.parsed->Some_0;
    assert(choice@.tool_calls == message_parts(
        completed.text@,
        completed.parsed,
        parallel_tool_calls,
    ).1);
    let calls = choice.message.tool_calls->Some_0@;
    assert(calls_view(calls).len() == calls.len());
    assert forall|k: int| 0 <= k < calls.len() implies (#[trigger] calls[k])@
        == parse.calls@[k].delivered() by {
        assert(calls_view(calls)[k] == calls[k]@);
    }
}

/// A generation without calls is delivered with its text, or none where that is empty, and
/// with the finish reason that its own output gives.
pub proof fn law_choices_without_calls<P: Copy>(
    collected: Vec<Result<CompletedChoice<P>, Failure>>,
    response_id: String,
    model: String,
    created: u32,
    want_logprobs: bool,
    parallel_tool_calls: bool,
    service_tier: Option<ServiceTier>,
    r: Result<CreateChatCompletionResponse<P>, Failure>,
    i: int,
    finish_reason: Option<FinishReason>,
)
    requires
        call_ensures(
            unary_chat::<P>,
            (
                collected,
                response_id,
                model,
                created,
                want_logprobs,
                parallel_tool_calls,
                service_tier,
            ),
            r,
        ),
        forall|k: int| 0 <= k < collected@.len() ==> (#[trigger] collected@[k]) is Ok,
        0 <= i < collected@.len(),
        collected@[i]->Ok_0.parsed matches Some(parse) ==> parse.calls@.len() == 0,
        call_ensures(chat_finish_reason::<P>, (&collected@[i]->Ok_0.output,), finish_reason),
    ensures
        ({
            let completed = collected@[i]->Ok_0;
            let choice = r->Ok_0.choices@[i];
            &&& choice.message.tool_calls is None
            &&& completed.text@.len() > 0 ==> choice.message.content is Some
                && choice.message.content->Some_0->Text_0@ == completed.text@
            &&& completed.text@.len() == 0 ==> choice.message.content is None
            &&& choice.finish_reason == finish_reason
        }),
{
    lemma_choice_of_a_generation(
        collected@,
        r,
        want_logprobs,
        parallel_tool_calls,
        i,
    );
}

/// A choice has log probabilities where the client wants them, and then those that its own
/// output gives.
pub proof fn law_choices_have_their_own_logprobs<P: Copy>(
    collected: Vec<Result<CompletedChoice<P>, Failure>>,
    response_id: String,
    model: String,
    created: u32,
    want_logprobs: bool,
    parallel_tool_calls: bool,
    service_tier: Option<ServiceTier>,
    r: Result<CreateChatCompletionResponse<P>, Failure>,
    i: int,
    extras: Option<&ChunkExtras<P>>,
    logprobs: ChatChoiceLogprobs<P>,
)
    requires
        call_ensures(
            unary_chat::<P>,
            (
                collected,
                response_id,
                model,
                created,
                want_logprobs,
                parallel_tool_calls,
                service_tier,
            ),
            r,
        ),
        forall|k: int| 0 <= k < collected@.len() ==> (#[trigger] collected@[k]) is Ok,
        0 <= i < collected@.len(),
        extras is Some <==> collected@[i]->Ok_0.output.extras is Some,
        extras matches Some(columns) ==> collected@[i]->Ok_0.output.extras == Some(*columns),
        call_ensures(chat_logprobs::<P>, (extras,), logprobs),
    ensures
        r->Ok_0.choices@[i].logprobs is Some <==> want_logprobs,
        want_logprobs ==> r->Ok_0.choices@[i].logprobs->Some_0@ == logprobs@,
{
    lemma_choice_of_a_generation(
        collected@,
        r,
        want_logprobs,
        parallel_tool_calls,
        i,
    );
}

} // verus!
