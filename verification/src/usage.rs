//! Token counting over the outputs of a request.
use crate::response::ChunkEvent;
use crate::wire::Usage;
use vstd::prelude::*;

verus! {

/// The first prompt size that an output reports, or zero while none did.
pub open spec fn prompt_size<P>(outputs: Seq<ChunkEvent<P>>) -> u32
    decreases outputs.len(),
{
    if outputs.len() == 0 {
        0
    } else if prompt_size(outputs.drop_last()) != 0 {
        prompt_size(outputs.drop_last())
    } else {
        outputs.last().prompt_tokens
    }
}

/// How many tokens the outputs bring together.
pub open spec fn completion_size<P>(outputs: Seq<ChunkEvent<P>>) -> int
    decreases outputs.len(),
{
    if outputs.len() == 0 {
        0
    } else {
        completion_size(outputs.drop_last()) + outputs.last().completion_tokens
    }
}

/// The number, or the cap where it is larger.
pub open spec fn capped(n: int, cap: int) -> int {
    if n <= cap {
        n
    } else {
        cap
    }
}

/// The usage of a request with these outputs. The completion count stops at the
/// largest number that it can hold.
pub open spec fn usage_of<P>(outputs: Seq<ChunkEvent<P>>) -> Usage {
    Usage {
        prompt_tokens: prompt_size(outputs),
        completion_tokens: capped(completion_size(outputs), u32::MAX as int) as u32,
    }
}

/// The running count of a request.
#[derive(Debug, Clone, Copy, PartialEq, Eq, Structural)]
pub struct TokenCount {
    pub prompt_tokens: u32,
    pub completion_tokens: u64,
}

impl TokenCount {
    /// This is the count after these outputs.
    pub open spec fn counts<P>(self, outputs: Seq<ChunkEvent<P>>) -> bool {
        &&& self.prompt_tokens == prompt_size(outputs)
        &&& self.completion_tokens == capped(completion_size(outputs), u64::MAX as int)
    }

    /// The count after one more output.
    pub open spec fn after<P>(self, output: ChunkEvent<P>) -> TokenCount {
        TokenCount {
            prompt_tokens: if self.prompt_tokens == 0 {
                output.prompt_tokens
            } else {
                self.prompt_tokens
            },
            completion_tokens: capped(
                self.completion_tokens + output.completion_tokens,
                u64::MAX as int,
            ) as u64,
        }
    }

    /// The usage that the count amounts to.
    pub open spec fn as_usage(self) -> Usage {
        Usage {
            prompt_tokens: self.prompt_tokens,
            completion_tokens: capped(self.completion_tokens as int, u32::MAX as int) as u32,
        }
    }

    /// The count before any output.
    pub fn new() -> (r: Self)
        ensures
            r.prompt_tokens == 0,
            r.completion_tokens == 0,
    {
        TokenCount { prompt_tokens: 0, completion_tokens: 0 }
    }

    /// Counts one more output.
    pub fn count<P>(&mut self, output: &ChunkEvent<P>)
        ensures
            *final(self) == old(self).after(*output),
    {
        if self.prompt_tokens == 0 {
            self.prompt_tokens = output.prompt_tokens;
        }
        self.completion_tokens = self.completion_tokens.saturating_add(output.completion_tokens);
    }

    /// The usage that the count amounts to.
    pub fn usage(&self) -> (r: Usage)
        ensures
            r == self.as_usage(),
    {
        let completion_tokens: u32 = if self.completion_tokens <= 0xffff_ffff {
            self.completion_tokens as u32
        } else {
            0xffff_ffff
        };
        Usage { prompt_tokens: self.prompt_tokens, completion_tokens }
    }
}

/// The outputs of a request, counted as they come.
pub struct OutputCount<P> {
    tokens: TokenCount,
    outputs: Ghost<Seq<ChunkEvent<P>>>,
}

impl<P> OutputCount<P> {
    /// The count is that of the outputs.
    #[verifier::type_invariant]
    closed spec fn counted(self) -> bool {
        self.tokens.counts(self.outputs@)
    }

    /// The outputs that were counted, in their order.
    pub closed spec fn outputs(self) -> Seq<ChunkEvent<P>> {
        self.outputs@
    }

    /// The count before any output.
    pub fn new() -> (r: Self)
        ensures
            r.outputs() == Seq::<ChunkEvent<P>>::empty(),
    {
        OutputCount { tokens: TokenCount::new(), outputs: Ghost(Seq::empty()) }
    }

    /// Counts one more output.
    pub fn count(&mut self, output: &ChunkEvent<P>)
        ensures
            final(self).outputs() == old(self).outputs().push(*output),
    {
        proof {
            use_type_invariant(&*self);
            law_count_goes_on(self.tokens, self.outputs@, *output);
        }
        let mut tokens = self.tokens;
        tokens.count(output);
        let ghost outputs = self.outputs@.push(*output);
        *self = OutputCount { tokens, outputs: Ghost(outputs) };
    }

    /// The usage of the outputs that were counted.
    pub fn usage(&self) -> (r: Usage)
        ensures
            r == usage_of(self.outputs()),
    {
        proof {
            use_type_invariant(self);
            law_count_is_usage(self.tokens, self.outputs@);
        }
        self.tokens.usage()
    }
}

proof fn lemma_completion_size_nonnegative<P>(outputs: Seq<ChunkEvent<P>>)
    ensures
        completion_size(outputs) >= 0,
    decreases outputs.len(),
{
    if outputs.len() > 0 {
        lemma_completion_size_nonnegative(outputs.drop_last());
    }
}

/// Counting one more output turns the count of some outputs into the count of those
/// outputs and this one.
pub proof fn law_count_goes_on<P>(
    count: TokenCount,
    outputs: Seq<ChunkEvent<P>>,
    output: ChunkEvent<P>,
)
    requires
        count.counts(outputs),
    ensures
        count.after(output).counts(outputs.push(output)),
{
    assert(outputs.push(output).drop_last() =~= outputs);
    lemma_completion_size_nonnegative(outputs);
}

/// The running count of a request amounts to the usage of its outputs.
pub proof fn law_count_is_usage<P>(count: TokenCount, outputs: Seq<ChunkEvent<P>>)
    requires
        count.counts(outputs),
    ensures
        count.as_usage() == usage_of(outputs),
{
    lemma_completion_size_nonnegative(outputs);
}

/// The prompt size is that of the first output that reports one.
pub proof fn law_prompt_size_is_the_first<P>(outputs: Seq<ChunkEvent<P>>, first: int)
    requires
        0 <= first < outputs.len(),
        outputs[first].prompt_tokens != 0,
        forall|i: int| 0 <= i < first ==> (#[trigger] outputs[i]).prompt_tokens == 0,
    ensures
        prompt_size(outputs) == outputs[first].prompt_tokens,
    decreases outputs.len(),
{
    if first < outputs.len() - 1 {
        law_prompt_size_is_the_first(outputs.drop_last(), first);
    } else {
        lemma_prompt_size_zero(outputs.drop_last());
    }
}

proof fn lemma_prompt_size_zero<P>(outputs: Seq<ChunkEvent<P>>)
    requires
        forall|i: int| 0 <= i < outputs.len() ==> (#[trigger] outputs[i]).prompt_tokens == 0,
    ensures
        prompt_size(outputs) == 0,
    decreases outputs.len(),
{
    if outputs.len() > 0 {
        lemma_prompt_size_zero(outputs.drop_last());
    }
}

/// The completion counts of two runs of outputs add up, so neither the order of the
/// choices nor the way in which their outputs alternate matters.
pub proof fn law_completion_sizes_add_up<P>(first: Seq<ChunkEvent<P>>, second: Seq<ChunkEvent<P>>)
    ensures
        completion_size(first + second) == completion_size(first) + completion_size(second),
    decreases second.len(),
{
    if second.len() == 0 {
        assert(first + second =~= first);
    } else {
        assert((first + second).drop_last() =~= first + second.drop_last());
        law_completion_sizes_add_up(first, second.drop_last());
    }
}

/// Counting keeps the first prompt size that is not zero, and adds up completions until
/// they no longer fit.
pub proof fn law_one_more_output_is_counted<P>(count: &mut TokenCount, output: ChunkEvent<P>)
    requires
        call_ensures(TokenCount::count::<P>, (count, &output), ()),
    ensures
        old(count).prompt_tokens != 0 ==> final(count).prompt_tokens == old(count).prompt_tokens,
        old(count).prompt_tokens == 0 ==> final(count).prompt_tokens == output.prompt_tokens,
        old(count).completion_tokens + output.completion_tokens <= u64::MAX
            ==> final(count).completion_tokens == old(count).completion_tokens
            + output.completion_tokens,
        old(count).completion_tokens + output.completion_tokens > u64::MAX
            ==> final(count).completion_tokens == u64::MAX,
{
}

/// A count starts at nothing, and amounts to a usage with its prompt size and with its
/// completions, as far as they fit.
pub proof fn law_usage_is_the_count(zero: TokenCount, count: TokenCount, usage: Usage)
    requires
        call_ensures(TokenCount::new, (), zero),
        call_ensures(TokenCount::usage, (&count,), usage),
    ensures
        zero.prompt_tokens == 0 && zero.completion_tokens == 0,
        usage.prompt_tokens == count.prompt_tokens,
        count.completion_tokens <= u32::MAX ==> usage.completion_tokens == count.completion_tokens,
        count.completion_tokens > u32::MAX ==> usage.completion_tokens == u32::MAX,
{
}

/// No output has no completion, one output has its own; with the law on sums this gives the
/// size of every run of outputs.
pub proof fn law_completion_size_of_one<P>(output: ChunkEvent<P>)
    ensures
        completion_size(Seq::<ChunkEvent<P>>::empty()) == 0,
        completion_size(seq![output]) == output.completion_tokens,
{
    assert(seq![output].drop_last() =~= Seq::empty());
    assert(completion_size(Seq::<ChunkEvent<P>>::empty()) == 0);
}

/// The usage of outputs has the prompt size of the first output that reports one, or zero
/// where none does, and the completions of all of them together, as far as they fit.
pub proof fn law_usage_of_outputs<P>(outputs: Seq<ChunkEvent<P>>)
    ensures
        forall|first: int|
            0 <= first < outputs.len() && (#[trigger] outputs[first]).prompt_tokens != 0 && (
            forall|i: int| 0 <= i < first ==> (#[trigger] outputs[i]).prompt_tokens == 0)
                ==> usage_of(outputs).prompt_tokens == outputs[first].prompt_tokens,
        (forall|i: int| 0 <= i < outputs.len() ==> (#[trigger] outputs[i]).prompt_tokens == 0)
            ==> usage_of(outputs).prompt_tokens == 0,
        completion_size(outputs) <= u32::MAX ==> usage_of(outputs).completion_tokens
            == completion_size(outputs),
        completion_size(outputs) > u32::MAX ==> usage_of(outputs).completion_tokens == u32::MAX,
{
    lemma_completion_size_nonnegative(outputs);
    assert forall|first: int|
        0 <= first < outputs.len() && (#[trigger] outputs[first]).prompt_tokens != 0 && (forall|
            i: int,
        |
            0 <= i < first ==> (#[trigger] outputs[i]).prompt_tokens
                == 0) implies usage_of(outputs).prompt_tokens == outputs[first].prompt_tokens by {
        law_prompt_size_is_the_first(outputs, first);
    }
    if forall|i: int| 0 <= i < outputs.len() ==> (#[trigger] outputs[i]).prompt_tokens == 0 {
        lemma_prompt_size_zero(outputs);
    }
}

/// A count of outputs starts with none, takes in each output at the end, and amounts to the
/// usage of those it took in.
pub proof fn law_outputs_are_counted_in_turn<P>(
    empty: OutputCount<P>,
    count: &mut OutputCount<P>,
    output: ChunkEvent<P>,
    counted: OutputCount<P>,
    usage: Usage,
)
    requires
        call_ensures(OutputCount::<P>::new, (), empty),
        call_ensures(OutputCount::<P>::count, (count, &output), ()),
        call_ensures(OutputCount::<P>::usage, (&counted,), usage),
    ensures
        empty.outputs().len() == 0,
        final(count).outputs() == old(count).outputs().push(output),
        usage == usage_of(counted.outputs()),
{
}

} // verus!
