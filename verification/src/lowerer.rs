//! Engine-free OpenAI protocol lowering.
use crate::config::RendererConfig;
use crate::error::RendererError;
use crate::request::GenerationInput;
use vstd::prelude::*;

verus! {

/// A lowered chat request: one generation per choice, and what is needed to read tool
/// calls out of the generated text. `T` is the type of a tool definition.
#[derive(Debug, Clone, PartialEq)]
pub struct LoweredChat<S, T> {
    pub generation_inputs: Vec<GenerationInput<S>>,
    pub tool_parser: Option<String>,
    pub tools: Option<Vec<T>>,
}

/// Lowers OpenAI requests under one configuration and one chat template. `F` is the
/// number type of the configuration and `C` the type of a chat formatter.
pub struct OpenAIRequestLowerer<F, C> {
    pub config: RendererConfig<F>,
    pub chat_formatter: Option<C>,
}

impl<F, C> OpenAIRequestLowerer<F, C> {
    pub fn new(config: RendererConfig<F>, chat_formatter: Option<C>) -> (r: Self)
        ensures
            r.config == config,
            r.chat_formatter == chat_formatter,
    {
        OpenAIRequestLowerer { config, chat_formatter }
    }

    /// Hands a chat request to `lower`, together with the configuration, a formatter of
    /// its own, and the id that the response will carry.
    pub fn lower_chat<Q, S, T, L>(&self, request: Q, response_id: &str, lower: L) -> (r: Result<
        LoweredChat<S, T>,
        RendererError,
    >) where
        C: Clone,
        L: FnOnce(&RendererConfig<F>, Option<C>, Q, &str) -> Result<
            LoweredChat<S, T>,
            RendererError,
        >,

        requires
            forall|formatter: Option<C>|
                call_requires(lower, (&self.config, formatter, request, response_id)),
        ensures
            exists|formatter: Option<C>|
                cloned(self.chat_formatter, formatter) && #[trigger] call_ensures(
                    lower,
                    (&self.config, formatter, request, response_id),
                    r,
                ),
    {
        lower(&self.config, self.chat_formatter.clone(), request, response_id)
    }

    /// Hands a completion request to `lower`, together with the configuration and the id
    /// that the response will carry.
    pub fn lower_completions<Q, S, L>(&self, request: &Q, response_id: &str, lower: L) -> (r:
        Result<Vec<GenerationInput<S>>, RendererError>) where
        L: FnOnce(&RendererConfig<F>, &Q, &str) -> Result<Vec<GenerationInput<S>>, RendererError>,

        requires
            call_requires(lower, (&self.config, request, response_id)),
        ensures
            call_ensures(lower, (&self.config, request, response_id), r),
    {
        lower(&self.config, request, response_id)
    }
}

/// A lowerer has the configuration and the formatter that it was made with.
pub proof fn law_lowerers_keep_their_parts<F, C>(
    config: RendererConfig<F>,
    chat_formatter: Option<C>,
    r: OpenAIRequestLowerer<F, C>,
)
    requires
        call_ensures(OpenAIRequestLowerer::<F, C>::new, (config, chat_formatter), r),
    ensures
        r.config == config,
        r.chat_formatter == chat_formatter,
{
}

/// What lowering a request gives is what the lowering routine may give for the lowerer's
/// configuration, a copy of its formatter, the request and the response id as they are.
pub proof fn law_requests_are_handed_over<F, C: Clone, Q, S, T, L>(
    lowerer: OpenAIRequestLowerer<F, C>,
    request: Q,
    response_id: &str,
    lower: L,
    r: Result<LoweredChat<S, T>, RendererError>,
) where
    L: FnOnce(&RendererConfig<F>, Option<C>, Q, &str) -> Result<LoweredChat<S, T>, RendererError>,

    requires
        call_ensures(
            OpenAIRequestLowerer::<F, C>::lower_chat::<Q, S, T, L>,
            (&lowerer, request, response_id, lower),
            r,
        ),
    ensures
        exists|formatter: Option<C>|
            cloned(lowerer.chat_formatter, formatter) && #[trigger] call_ensures(
                lower,
                (&lowerer.config, formatter, request, response_id),
                r,
            ),
{
}

/// What lowering a completion request gives is what the lowering routine may give for the
/// lowerer's configuration, the request and the response id as they are.
pub proof fn law_completions_are_handed_over<F, C, Q, S, L>(
    lowerer: OpenAIRequestLowerer<F, C>,
    request: &Q,
    response_id: &str,
    lower: L,
    r: Result<Vec<GenerationInput<S>>, RendererError>,
) where
    L: FnOnce(&RendererConfig<F>, &Q, &str) -> Result<Vec<GenerationInput<S>>, RendererError>,

    requires
        call_ensures(
            OpenAIRequestLowerer::<F, C>::lower_completions::<Q, S, L>,
            (&lowerer, request, response_id, lower),
            r,
        ),
    ensures
        call_ensures(lower, (&lowerer.config, request, response_id), r),
{
}

} // verus!
