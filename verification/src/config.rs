//! Immutable configuration required for OpenAI request lowering.
//!
//! `F` is the number type of the sampling settings; the library only carries them.
use vstd::prelude::*;

verus! {

#[derive(Clone, Debug, PartialEq)]
pub struct SamplingDefaults<F> {
    pub temperature: Option<F>,
    pub top_p: Option<F>,
}

impl<F> Default for SamplingDefaults<F> {
    fn default() -> (r: Self)
        ensures
            r.temperature is None,
            r.top_p is None,
    {
        SamplingDefaults { temperature: None, top_p: None }
    }
}

#[derive(Clone, Debug, PartialEq)]
pub struct RendererConfig<F> {
    pub served_model_name: String,
    pub tool_call_parser: Option<String>,
    pub default_sampling_params: SamplingDefaults<F>,
}

/// By default no sampling setting is made.
pub proof fn law_no_setting_by_default<F>(defaults: SamplingDefaults<F>)
    requires
        call_ensures(<SamplingDefaults<F> as Default>::default, (), defaults),
    ensures
        defaults.temperature is None && defaults.top_p is None,
{
}

} // verus!
