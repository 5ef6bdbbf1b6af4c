//! Model-facing request states produced by protocol lowering.
//!
//! `S` is the type of the sampling parameters.
use vstd::prelude::*;

verus! {

/// Token ids of a prompt, or tokens of interest.
pub type TokenIds = Vec<i64>;

#[derive(Debug, Clone, PartialEq)]
pub struct GenerationOptions<S> {
    pub sampling_params: S,
    pub stream: bool,
    pub return_logprob: bool,
    pub logprob_start_len: i64,
    pub top_logprobs_num: i64,
    pub token_ids_logprob: Option<TokenIds>,
    pub return_hidden_states: bool,
    pub return_text_in_logprobs: Option<bool>,
}

impl<S: Default> Default for GenerationOptions<S> {
    fn default() -> (r: Self)
        ensures
            call_ensures(S::default, (), r.sampling_params),
            !r.stream,
            !r.return_logprob,
            r.logprob_start_len == 0,
            r.top_logprobs_num == 0,
            r.token_ids_logprob is None,
            !r.return_hidden_states,
            r.return_text_in_logprobs is None,
    {
        GenerationOptions {
            sampling_params: S::default(),
            stream: false,
            return_logprob: false,
            logprob_start_len: 0,
            top_logprobs_num: 0,
            token_ids_logprob: None,
            return_hidden_states: false,
            return_text_in_logprobs: None,
        }
    }
}

#[derive(Debug, Clone, PartialEq)]
pub struct TextRequest<S> {
    pub rid: String,
    pub text: String,
    pub skip_special_tokens: bool,
    pub options: GenerationOptions<S>,
}

#[derive(Debug, Clone, PartialEq)]
pub struct TokenIdsRequest<S> {
    pub rid: String,
    pub input_ids: TokenIds,
    pub options: GenerationOptions<S>,
}

/// Protocol lowering output before tokenizer-dependent preparation.
#[derive(Debug, Clone, PartialEq)]
pub enum GenerationInput<S> {
    Text(TextRequest<S>),
    TokenIds(TokenIdsRequest<S>),
}

/// The options of a request, whatever its prompt is made of.
pub open spec fn input_options<S>(input: GenerationInput<S>) -> GenerationOptions<S> {
    match input {
        GenerationInput::Text(request) => request.options,
        GenerationInput::TokenIds(request) => request.options,
    }
}

impl<S> GenerationInput<S> {
    pub fn options(&self) -> (r: &GenerationOptions<S>)
        ensures
            *r == input_options(*self),
    {
        match self {
            GenerationInput::Text(request) => &request.options,
            GenerationInput::TokenIds(request) => &request.options,
        }
    }
}

/// A request for text and one for token ids each have their own options.
pub proof fn law_options_are_the_requests_own<S>(
    text: TextRequest<S>,
    text_options: &GenerationOptions<S>,
    ids: TokenIdsRequest<S>,
    ids_options: &GenerationOptions<S>,
)
    requires
        call_ensures(
            GenerationInput::<S>::options,
            (&GenerationInput::Text(text),),
            text_options,
        ),
        call_ensures(
            GenerationInput::<S>::options,
            (&GenerationInput::TokenIds(ids),),
            ids_options,
        ),
    ensures
        *text_options == text.options,
        *ids_options == ids.options,
{
}

/// By default a generation asks for nothing beside the parameters' own default.
pub proof fn law_default_options_ask_for_nothing<S: Default>(options: GenerationOptions<S>)
    requires
        call_ensures(<GenerationOptions<S> as Default>::default, (), options),
    ensures
        call_ensures(S::default, (), options.sampling_params),
        !options.stream && !options.return_logprob && !options.return_hidden_states,
        options.logprob_start_len == 0 && options.top_logprobs_num == 0,
        options.token_ids_logprob is None && options.return_text_in_logprobs is None,
{
}

} // verus!
