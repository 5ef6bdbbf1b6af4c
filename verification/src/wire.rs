//! The OpenAI chat types that the library fills, and what they hold.
//!
//! `P` is the type of a log probability; the library only carries such numbers.
use crate::text::option_view;
use vstd::prelude::*;

verus! {

/// Who speaks in a message.
#[derive(Debug, Clone, Copy, PartialEq, Eq, Structural)]
pub enum Role {
    System,
    User,
    Assistant,
    Tool,
    Function,
}

/// Why a choice ended.
#[derive(Debug, Clone, Copy, PartialEq, Eq, Structural)]
pub enum FinishReason {
    Stop,
    Length,
    ToolCalls,
    ContentFilter,
    FunctionCall,
}

/// What a tool call calls.
#[derive(Debug, Clone, Copy, PartialEq, Eq, Structural)]
pub enum FunctionType {
    Function,
}

/// The processing tier that a request asked for.
#[derive(Debug, Clone, Copy, PartialEq, Eq, Structural)]
pub enum ServiceTier {
    Auto,
    Default,
    Flex,
    Scale,
    Priority,
}

/// The content of a message.
#[derive(Debug, Clone, PartialEq)]
pub enum ChatCompletionMessageContent {
    Text(String),
}

/// A called function, whole.
#[derive(Debug, Clone, PartialEq)]
pub struct FunctionCall {
    pub name: String,
    pub arguments: String,
}

/// A called function, as far as one chunk tells it.
#[derive(Debug, Clone, PartialEq)]
pub struct FunctionCallStream {
    pub name: Option<String>,
    pub arguments: Option<String>,
}

/// A tool call of a whole message.
#[derive(Debug, Clone, PartialEq)]
pub struct ChatCompletionMessageToolCall {
    pub id: String,
    pub kind: FunctionType,
    pub function: FunctionCall,
}

/// A tool call as far as one chunk tells it.
#[derive(Debug, Clone, PartialEq)]
pub struct ChatCompletionMessageToolCallChunk {
    pub index: u32,
    pub id: Option<String>,
    pub kind: Option<FunctionType>,
    pub function: Option<FunctionCallStream>,
}

/// One of the likeliest tokens at a position.
#[derive(Debug, Clone, PartialEq)]
pub struct TopLogprobs<P> {
    pub token: String,
    pub logprob: P,
    pub bytes: Option<Vec<u8>>,
}

/// The token chosen at a position, with the likeliest ones there.
#[derive(Debug, Clone, PartialEq)]
pub struct ChatCompletionTokenLogprob<P> {
    pub token: String,
    pub logprob: P,
    pub token_id: Option<u32>,
    pub bytes: Option<Vec<u8>>,
    pub top_logprobs: Vec<TopLogprobs<P>>,
}

/// The log probabilities of a choice.
#[derive(Debug, Clone, PartialEq)]
pub struct ChatChoiceLogprobs<P> {
    pub content: Option<Vec<ChatCompletionTokenLogprob<P>>>,
    pub refusal: Option<Vec<ChatCompletionTokenLogprob<P>>>,
}

/// What one chunk adds to a streamed message.
#[derive(Debug, Clone, PartialEq)]
pub struct ChatCompletionStreamResponseDelta {
    pub content: Option<ChatCompletionMessageContent>,
    pub function_call: Option<FunctionCallStream>,
    pub tool_calls: Option<Vec<ChatCompletionMessageToolCallChunk>>,
    pub role: Option<Role>,
    pub refusal: Option<String>,
    pub reasoning_content: Option<String>,
}

/// One choice of a chunk.
#[derive(Debug, Clone, PartialEq)]
pub struct ChatChoiceStream<P> {
    pub index: u32,
    pub delta: ChatCompletionStreamResponseDelta,
    pub finish_reason: Option<FinishReason>,
    pub logprobs: Option<ChatChoiceLogprobs<P>>,
}

/// How many tokens a request took.
#[derive(Debug, Clone, Copy, PartialEq, Eq, Structural)]
pub struct Usage {
    pub prompt_tokens: u32,
    pub completion_tokens: u32,
}

/// A chunk of a streamed response.
#[derive(Debug, Clone, PartialEq)]
pub struct ChatCompletionChunk<P> {
    pub id: String,
    pub choices: Vec<ChatChoiceStream<P>>,
    pub created: u32,
    pub model: String,
    pub service_tier: Option<ServiceTier>,
    pub system_fingerprint: Option<String>,
    pub object: String,
    pub usage: Option<Usage>,
}

/// The message of a whole response.
#[derive(Debug, Clone, PartialEq)]
pub struct ChatCompletionResponseMessage {
    pub content: Option<ChatCompletionMessageContent>,
    pub refusal: Option<String>,
    pub tool_calls: Option<Vec<ChatCompletionMessageToolCall>>,
    pub role: Role,
    pub function_call: Option<FunctionCall>,
    pub reasoning_content: Option<String>,
}

/// One choice of a whole response.
#[derive(Debug, Clone, PartialEq)]
pub struct ChatChoice<P> {
    pub index: u32,
    pub message: ChatCompletionResponseMessage,
    pub finish_reason: Option<FinishReason>,
    pub logprobs: Option<ChatChoiceLogprobs<P>>,
}

/// A whole response.
#[derive(Debug, Clone, PartialEq)]
pub struct CreateChatCompletionResponse<P> {
    pub id: String,
    pub choices: Vec<ChatChoice<P>>,
    pub created: u32,
    pub model: String,
    pub service_tier: Option<ServiceTier>,
    pub system_fingerprint: Option<String>,
    pub object: String,
    pub usage: Option<Usage>,
}

/// What a `TopLogprobs` holds.
pub struct TopView<P> {
    pub token: Seq<char>,
    pub logprob: P,
    pub bytes: Option<Seq<u8>>,
}

/// What a `ChatCompletionTokenLogprob` holds.
pub struct TokenView<P> {
    pub token: Seq<char>,
    pub logprob: P,
    pub token_id: Option<u32>,
    pub bytes: Option<Seq<u8>>,
    pub top_logprobs: Seq<TopView<P>>,
}

/// What a `ChatChoiceLogprobs` holds.
pub struct LogprobsView<P> {
    pub content: Option<Seq<TokenView<P>>>,
    pub refusal: Option<Seq<TokenView<P>>>,
}

/// What a `ChatCompletionStreamResponseDelta` holds.
pub struct DeltaView {
    pub content: Option<Seq<char>>,
    pub function_call: Option<FunctionCallStream>,
    pub tool_calls: Option<Seq<ChatCompletionMessageToolCallChunk>>,
    pub role: Option<Role>,
    pub refusal: Option<Seq<char>>,
    pub reasoning_content: Option<Seq<char>>,
}

/// What a `ChatChoiceStream` holds.
pub struct ChunkView<P> {
    pub index: u32,
    pub delta: DeltaView,
    pub finish_reason: Option<FinishReason>,
    pub logprobs: Option<LogprobsView<P>>,
}

/// What a `ChatCompletionChunk` holds.
pub struct StreamResponseView<P> {
    pub id: Seq<char>,
    pub choices: Seq<ChunkView<P>>,
    pub created: u32,
    pub model: Seq<char>,
    pub service_tier: Option<ServiceTier>,
    pub system_fingerprint: Option<Seq<char>>,
    pub object: Seq<char>,
    pub usage: Option<Usage>,
}

/// What a `ChatCompletionMessageToolCall` holds.
pub struct ToolCallView {
    pub id: Seq<char>,
    pub kind: FunctionType,
    pub name: Seq<char>,
    pub arguments: Seq<char>,
}

/// What a `ChatChoice` holds.
pub struct ChoiceView<P> {
    pub index: u32,
    pub content: Option<Seq<char>>,
    pub refusal: Option<Seq<char>>,
    pub tool_calls: Option<Seq<ToolCallView>>,
    pub role: Role,
    pub function_call: Option<FunctionCall>,
    pub reasoning_content: Option<Seq<char>>,
    pub finish_reason: Option<FinishReason>,
    pub logprobs: Option<LogprobsView<P>>,
}

/// The text of an optional message content.
pub open spec fn content_view(content: Option<ChatCompletionMessageContent>) -> Option<Seq<char>> {
    match content {
        Some(ChatCompletionMessageContent::Text(text)) => Some(text@),
        None => None,
    }
}

/// The bytes of an optional list.
pub open spec fn bytes_view(bytes: Option<Vec<u8>>) -> Option<Seq<u8>> {
    match bytes {
        Some(bytes) => Some(bytes@),
        None => None,
    }
}

/// What each of the likeliest tokens holds.
pub open spec fn tops_view<P>(tops: Seq<TopLogprobs<P>>) -> Seq<TopView<P>> {
    Seq::new(tops.len(), |i: int| tops[i]@)
}

/// What each token entry holds.
pub open spec fn tokens_view<P>(tokens: Seq<ChatCompletionTokenLogprob<P>>) -> Seq<TokenView<P>> {
    Seq::new(tokens.len(), |i: int| tokens[i]@)
}

/// What each token entry of an optional list holds.
pub open spec fn option_tokens_view<P>(
    tokens: Option<Vec<ChatCompletionTokenLogprob<P>>>,
) -> Option<Seq<TokenView<P>>> {
    match tokens {
        Some(tokens) => Some(tokens_view(tokens@)),
        None => None,
    }
}

/// What optional log probabilities hold.
pub open spec fn logprobs_view<P>(
    logprobs: Option<ChatChoiceLogprobs<P>>,
) -> Option<LogprobsView<P>> {
    match logprobs {
        Some(logprobs) => Some(logprobs@),
        None => None,
    }
}

/// What each choice of a chunk holds.
pub open spec fn chunks_view<P>(chunks: Seq<ChatChoiceStream<P>>) -> Seq<ChunkView<P>> {
    Seq::new(chunks.len(), |i: int| chunks[i]@)
}

/// What each chunk of a stream holds.
pub open spec fn responses_view<P>(
    responses: Seq<ChatCompletionChunk<P>>,
) -> Seq<StreamResponseView<P>> {
    Seq::new(responses.len(), |i: int| responses[i]@)
}

/// What each tool call holds.
pub open spec fn calls_view(calls: Seq<ChatCompletionMessageToolCall>) -> Seq<ToolCallView> {
    Seq::new(calls.len(), |i: int| calls[i]@)
}

/// What each tool call of an optional list holds.
pub open spec fn option_calls_view(
    calls: Option<Vec<ChatCompletionMessageToolCall>>,
) -> Option<Seq<ToolCallView>> {
    match calls {
        Some(calls) => Some(calls_view(calls@)),
        None => None,
    }
}

/// What each choice of a response holds.
pub open spec fn choices_view<P>(choices: Seq<ChatChoice<P>>) -> Seq<ChoiceView<P>> {
    Seq::new(choices.len(), |i: int| choices[i]@)
}

impl<P> View for TopLogprobs<P> {
    type V = TopView<P>;

    open spec fn view(&self) -> TopView<P> {
        TopView { token: self.token@, logprob: self.logprob, bytes: bytes_view(self.bytes) }
    }
}

impl<P> View for ChatCompletionTokenLogprob<P> {
    type V = TokenView<P>;

    open spec fn view(&self) -> TokenView<P> {
        TokenView {
            token: self.token@,
            logprob: self.logprob,
            token_id: self.token_id,
            bytes: bytes_view(self.bytes),
            top_logprobs: tops_view(self.top_logprobs@),
        }
    }
}

impl<P> View for ChatChoiceLogprobs<P> {
    type V = LogprobsView<P>;

    open spec fn view(&self) -> LogprobsView<P> {
        LogprobsView {
            content: option_tokens_view(self.content),
            refusal: option_tokens_view(self.refusal),
        }
    }
}

impl View for ChatCompletionStreamResponseDelta {
    type V = DeltaView;

    open spec fn view(&self) -> DeltaView {
        DeltaView {
            content: content_view(self.content),
            function_call: self.function_call,
            tool_calls: match self.tool_calls {
                Some(calls) => Some(calls@),
                None => None,
            },
            role: self.role,
            refusal: option_view(self.refusal),
            reasoning_content: option_view(self.reasoning_content),
        }
    }
}

impl<P> View for ChatChoiceStream<P> {
    type V = ChunkView<P>;

    open spec fn view(&self) -> ChunkView<P> {
        ChunkView {
            index: self.index,
            delta: self.delta@,
            finish_reason: self.finish_reason,
            logprobs: logprobs_view(self.logprobs),
        }
    }
}

impl<P> View for ChatCompletionChunk<P> {
    type V = StreamResponseView<P>;

    open spec fn view(&self) -> StreamResponseView<P> {
        StreamResponseView {
            id: self.id@,
            choices: chunks_view(self.choices@),
            created: self.created,
            model: self.model@,
            service_tier: self.service_tier,
            system_fingerprint: option_view(self.system_fingerprint),
            object: self.object@,
            usage: self.usage,
        }
    }
}

impl View for ChatCompletionMessageToolCall {
    type V = ToolCallView;

    open spec fn view(&self) -> ToolCallView {
        ToolCallView {
            id: self.id@,
            kind: self.kind,
            name: self.function.name@,
            arguments: self.function.arguments@,
        }
    }
}

impl<P> View for ChatChoice<P> {
    type V = ChoiceView<P>;

    open spec fn view(&self) -> ChoiceView<P> {
        ChoiceView {
            index: self.index,
            content: content_view(self.message.content),
            refusal: option_view(self.message.refusal),
            tool_calls: option_calls_view(self.message.tool_calls),
            role: self.message.role,
            function_call: self.message.function_call,
            reasoning_content: option_view(self.message.reasoning_content),
            finish_reason: self.finish_reason,
            logprobs: logprobs_view(self.logprobs),
        }
    }
}

} // verus!
