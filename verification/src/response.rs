//! What the engine sends back for a submitted generation.
use vstd::prelude::*;

verus! {

/// Log probabilities and the likeliest tokens of the tokens in a chunk. The `out_top_*`
/// columns hold the likeliest tokens of all positions, one position behind the other.
#[derive(Debug, Clone, PartialEq)]
pub struct ChunkExtras<P> {
    pub out_lp_val: Vec<P>,
    pub out_lp_idx: Vec<i64>,
    pub out_lp_txt: Vec<String>,
    pub out_top_val: Vec<P>,
    pub out_top_idx: Vec<i64>,
    pub out_top_lens: Vec<u32>,
    pub out_top_txt: Vec<String>,
}

impl<P> Default for ChunkExtras<P> {
    fn default() -> (r: Self)
        ensures
            r.out_lp_val@.len() == 0,
            r.out_lp_idx@.len() == 0,
            r.out_lp_txt@.len() == 0,
            r.out_top_val@.len() == 0,
            r.out_top_idx@.len() == 0,
            r.out_top_lens@.len() == 0,
            r.out_top_txt@.len() == 0,
    {
        ChunkExtras {
            out_lp_val: Vec::new(),
            out_lp_idx: Vec::new(),
            out_lp_txt: Vec::new(),
            out_top_val: Vec::new(),
            out_top_idx: Vec::new(),
            out_top_lens: Vec::new(),
            out_top_txt: Vec::new(),
        }
    }
}

/// An abort that the scheduler reports with an HTTP status.
#[derive(Debug, Clone, PartialEq)]
pub struct AbortStatus {
    pub code: u16,
    pub message: String,
}

/// Why the scheduler ended a generation: the name of the kind where it has one, and
/// the status of an abort that carries one.
#[derive(Debug, Clone, PartialEq)]
pub struct SchedulerFinish {
    pub kind: Option<String>,
    pub abort: Option<AbortStatus>,
}

/// A step of a generation.
#[derive(Debug, Clone, PartialEq)]
pub struct ChunkEvent<P> {
    pub rid: String,
    pub text: String,
    pub token_ids: Vec<i64>,
    pub prompt_tokens: u32,
    pub completion_tokens: u64,
    pub finish_reason: Option<SchedulerFinish>,
    pub extras: Option<ChunkExtras<P>>,
}

impl<P> Default for ChunkEvent<P> {
    fn default() -> (r: Self)
        ensures
            r.rid@.len() == 0,
            r.text@.len() == 0,
            r.token_ids@.len() == 0,
            r.prompt_tokens == 0,
            r.completion_tokens == 0,
            r.finish_reason is None,
            r.extras is None,
    {
        ChunkEvent {
            rid: String::new(),
            text: String::new(),
            token_ids: Vec::new(),
            prompt_tokens: 0,
            completion_tokens: 0,
            finish_reason: None,
            extras: None,
        }
    }
}

/// A failure that the engine reports for one generation.
#[derive(Debug, Clone, PartialEq)]
pub struct EngineError {
    pub http_status: u16,
    pub message: String,
}

/// An item of a generation's response channel. `Control` and `Data` items carry
/// nothing for a chat client.
#[derive(Debug, Clone, PartialEq)]
pub enum ResponseItem<P> {
    Frame(ChunkEvent<P>),
    Done(ChunkEvent<P>),
    Error(EngineError),
    Control,
    Data,
}

/// An output and its extras are empty by default.
pub proof fn law_defaults_are_empty<P>(event: ChunkEvent<P>, extras: ChunkExtras<P>)
    requires
        call_ensures(<ChunkEvent<P> as Default>::default, (), event),
        call_ensures(<ChunkExtras<P> as Default>::default, (), extras),
    ensures
        event.rid@.len() == 0 && event.text@.len() == 0 && event.token_ids@.len() == 0,
        event.prompt_tokens == 0 && event.completion_tokens == 0,
        event.finish_reason is None && event.extras is None,
        extras.out_lp_val@.len() == 0 && extras.out_lp_idx@.len() == 0 && extras.out_lp_txt@.len()
            == 0,
        extras.out_top_val@.len() == 0 && extras.out_top_idx@.len() == 0
            && extras.out_top_lens@.len() == 0 && extras.out_top_txt@.len() == 0,
{
}

} // verus!
