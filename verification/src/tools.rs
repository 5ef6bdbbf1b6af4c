//! Chat tool-call parsing and OpenAI response shaping.
use crate::response::ChunkEvent;
use crate::text::{option_view, same_text};
use crate::wire::{
    calls_view, option_calls_view, ChatCompletionMessageContent, ChatCompletionMessageToolCall,
    ChatCompletionMessageToolCallChunk, ChatCompletionStreamResponseDelta, DeltaView,
    FinishReason, FunctionCall, FunctionType, Role, ToolCallView,
};
use vstd::prelude::*;

verus! {

/// The parser's own name for a tool-call format: `qwen` is served by `qwen25`. That every
/// other name stands for itself is this library's assumption.
pub open spec fn parser_name(parser: Seq<char>) -> Seq<char> {
    if parser == "qwen"@ {
        "qwen25"@
    } else {
        parser
    }
}

/// The parser's own name for a tool-call format. Only `qwen` is known to have another one;
/// this library assumes that the rest are the parser's own already.
pub fn dynamo_parser_name<'a>(parser: &'a str) -> (r: &'a str)
    ensures
        r@ == parser_name(parser@),
{
    if same_text(parser, "qwen") {
        "qwen25"
    } else {
        parser
    }
}

/// The parser that generated text is handed to, where tool calls are parsed at all.
pub fn parser_to_run<'a>(parser: Option<&'a str>) -> (r: Option<&'a str>)
    ensures
        match (parser, r) {
            (Some(parser), Some(name)) => name@ == parser_name(parser@),
            (None, None) => true,
            _ => false,
        },
{
    match parser {
        Some(parser) => Some(dynamo_parser_name(parser)),
        None => None,
    }
}

/// Build a chat-streaming delta carrying any of the optional columns.
///
/// The deprecated `function_call` field stays `None`: tool calls go through
/// the `tool_calls` array.
pub fn chat_delta(
    content: Option<String>,
    role: Option<Role>,
    tool_calls: Option<Vec<ChatCompletionMessageToolCallChunk>>,
    reasoning_content: Option<String>,
) -> (r: ChatCompletionStreamResponseDelta)
    ensures
        r == (ChatCompletionStreamResponseDelta {
            content: match content {
                Some(text) => Some(ChatCompletionMessageContent::Text(text)),
                None => None,
            },
            function_call: None,
            tool_calls,
            role,
            refusal: None,
            reasoning_content,
        }),
{
    ChatCompletionStreamResponseDelta {
        content: match content {
            Some(text) => Some(ChatCompletionMessageContent::Text(text)),
            None => None,
        },
        function_call: None,
        tool_calls,
        role,
        refusal: None,
        reasoning_content,
    }
}

/// A tool call that a parser found.
#[derive(Debug, Clone, PartialEq)]
pub struct ParsedToolCall {
    pub id: String,
    pub name: String,
    pub arguments: String,
}

/// What a parser made of a generation: the calls, and the text that is none of them.
#[derive(Debug, Clone, PartialEq)]
pub struct ToolParse {
    pub calls: Vec<ParsedToolCall>,
    pub normal: Option<String>,
}

impl ParsedToolCall {
    /// The call in the shape that a client gets.
    pub open spec fn delivered(self) -> ToolCallView {
        ToolCallView {
            id: self.id@,
            kind: FunctionType::Function,
            name: self.name@,
            arguments: self.arguments@,
        }
    }
}

/// The calls that a client gets: all, or the first where calls may not run in parallel.
pub open spec fn delivered_calls(
    calls: Seq<ParsedToolCall>,
    parallel_tool_calls: bool,
) -> Seq<ToolCallView> {
    let count = if parallel_tool_calls || calls.len() == 0 {
        calls.len()
    } else {
        1
    };
    Seq::new(count, |i: int| calls[i].delivered())
}

/// The text and the calls of a message, given what the parser made of it. `None`
/// stands for a message that no parser read, or that it could not read.
pub open spec fn message_parts(
    content: Seq<char>,
    parsed: Option<ToolParse>,
    parallel_tool_calls: bool,
) -> (Seq<char>, Option<Seq<ToolCallView>>) {
    match parsed {
        Some(parse) => if parse.calls@.len() == 0 {
            (content, None)
        } else {
            (
                match parse.normal {
                    Some(normal) => normal@,
                    None => Seq::empty(),
                },
                Some(delivered_calls(parse.calls@, parallel_tool_calls)),
            )
        },
        None => (content, None),
    }
}

/// Parse tool calls out of a completed (unary) generation's content.
///
/// Gives `(content, None)` when no parser is configured or no call parses: the content
/// passes through untouched. A successful parse gives the leftover non-tool text and
/// the calls; `parallel_tool_calls` false truncates the batch to the first call.
pub fn parse_chat_tool_calls(
    content: String,
    parsed: Option<ToolParse>,
    parallel_tool_calls: bool,
) -> (r: (String, Option<Vec<ChatCompletionMessageToolCall>>))
    ensures
        (r.0@, option_calls_view(r.1)) == message_parts(content@, parsed, parallel_tool_calls),
        r.1 is None ==> r.0 == content,
{
    let mut parse = match parsed {
        Some(parse) => parse,
        None => {
            return (content, None);
        },
    };
    if parse.calls.len() == 0 {
        return (content, None);
    }
    let ghost found = parse.calls@;
    if !parallel_tool_calls {
        parse.calls.truncate(1);
    }
    let mut calls: Vec<ChatCompletionMessageToolCall> = Vec::new();
    let mut i: usize = 0;
    while i < parse.calls.len()
        invariant
            i <= parse.calls.len(),
            calls.len() == i,
            forall|k: int| 0 <= k < i ==> #[trigger] calls[k]@ == parse.calls[k].delivered(),
        decreases parse.calls.len() - i,
    {
        let call = &parse.calls[i];
        calls.push(
            ChatCompletionMessageToolCall {
                id: call.id.clone(),
                kind: FunctionType::Function,
                function: FunctionCall {
                    name: call.name.clone(),
                    arguments: call.arguments.clone(),
                },
            },
        );
        i += 1;
    }
    assert(calls_view(calls@) =~= delivered_calls(found, parallel_tool_calls));
    let normal = match parse.normal {
        Some(normal) => normal,
        None => String::new(),
    };
    (normal, Some(calls))
}

/// The OpenAI name for a scheduler's finish kind.
pub open spec fn finish_kind(kind: Seq<char>) -> FinishReason {
    if kind == "length"@ {
        FinishReason::Length
    } else if kind == "content_filter"@ {
        FinishReason::ContentFilter
    } else {
        FinishReason::Stop
    }
}

/// The finish reason that a chunk brings.
pub open spec fn chunk_finish<P>(output: ChunkEvent<P>) -> Option<FinishReason> {
    match output.finish_reason {
        Some(reason) => match reason.kind {
            Some(kind) => Some(finish_kind(kind@)),
            None => None,
        },
        None => None,
    }
}

/// Map the scheduler's finish kind onto the OpenAI wire values. Length and
/// content-filter keep their names; everything else (including a bare abort)
/// reports as `stop`.
pub fn chat_finish_reason<P>(output: &ChunkEvent<P>) -> (r: Option<FinishReason>)
    ensures
        r == chunk_finish(*output),
{
    let kind = match &output.finish_reason {
        Some(reason) => match &reason.kind {
            Some(kind) => kind.as_str(),
            None => {
                return None;
            },
        },
        None => {
            return None;
        },
    };
    if same_text(kind, "length") {
        Some(FinishReason::Length)
    } else if same_text(kind, "content_filter") {
        Some(FinishReason::ContentFilter)
    } else {
        Some(FinishReason::Stop)
    }
}

/// The tool calls that one choice of a chunk carries.
#[derive(Debug, Clone, PartialEq)]
pub struct ChoiceToolCalls<T> {
    pub index: u32,
    pub calls: Option<Vec<T>>,
}

/// Holds a stream to one tool call per choice, unless calls may run in parallel.
#[derive(Debug, Clone, PartialEq)]
pub struct ToolCallLimiter {
    pub parallel_tool_calls: bool,
    pub seen: Vec<bool>,
}

/// Whether a choice has had its call. A choice that was never submitted has not.
pub open spec fn had_call(seen: Seq<bool>, index: u32) -> bool {
    index < seen.len() && seen[index as int]
}

/// The calls of a chunk that pass, given whether the choice has had its call.
pub open spec fn passing_calls<T>(had: bool, calls: Option<Seq<T>>) -> Option<Seq<T>> {
    match calls {
        Some(calls) => if had || calls.len() == 0 {
            None
        } else {
            Some(calls.take(1))
        },
        None => None,
    }
}

/// Which choices have had their call after a chunk's calls for one choice.
pub open spec fn seen_after<T>(seen: Seq<bool>, index: u32, calls: Option<Seq<T>>) -> Seq<bool> {
    if index < seen.len() && calls is Some && calls->Some_0.len() > 0 {
        seen.update(index as int, true)
    } else {
        seen
    }
}

/// The calls of a choice as a sequence.
pub open spec fn sequence_of<T>(choice: ChoiceToolCalls<T>) -> (u32, Option<Seq<T>>) {
    (
        choice.index,
        match choice.calls {
            Some(calls) => Some(calls@),
            None => None,
        },
    )
}

/// The calls of each choice of a chunk.
pub open spec fn sequences_of<T>(choices: Seq<ChoiceToolCalls<T>>) -> Seq<(u32, Option<Seq<T>>)> {
    Seq::new(choices.len(), |i: int| sequence_of(choices[i]))
}

/// Which choices have had their call after the first `count` batches of a stream.
pub open spec fn seen_through<T>(
    seen: Seq<bool>,
    batches: Seq<(u32, Option<Seq<T>>)>,
    count: int,
) -> Seq<bool>
    decreases count,
{
    if count <= 0 {
        seen
    } else {
        seen_after(
            seen_through(seen, batches, count - 1),
            batches[count - 1].0,
            batches[count - 1].1,
        )
    }
}

/// What passes of each batch of a stream that is held to one call per choice.
pub open spec fn limited<T>(
    seen: Seq<bool>,
    batches: Seq<(u32, Option<Seq<T>>)>,
) -> Seq<(u32, Option<Seq<T>>)> {
    Seq::new(
        batches.len(),
        |i: int|
            (
                batches[i].0,
                passing_calls(had_call(seen_through(seen, batches, i), batches[i].0), batches[i].1),
            ),
    )
}

impl ToolCallLimiter {
    /// A limiter for a stream of `count` choices, none of which has had a call.
    pub fn new(count: usize, parallel_tool_calls: bool) -> (r: Self)
        ensures
            r.parallel_tool_calls == parallel_tool_calls,
            r.seen@ == Seq::new(count as nat, |i: int| false),
    {
        let mut seen: Vec<bool> = Vec::new();
        while seen.len() < count
            invariant
                seen.len() <= count,
                forall|i: int| 0 <= i < seen.len() ==> !seen[i],
            decreases count - seen.len(),
        {
            seen.push(false);
        }
        assert(seen@ =~= Seq::new(count as nat, |i: int| false));
        ToolCallLimiter { parallel_tool_calls, seen }
    }

    /// Takes the calls of one choice of a chunk and lets pass what may pass.
    fn limit_choice<T>(&mut self, choice: &mut ChoiceToolCalls<T>)
        ensures
            final(self).parallel_tool_calls == old(self).parallel_tool_calls,
            final(self).seen@ == seen_after(
                old(self).seen@,
                sequence_of(*old(choice)).0,
                sequence_of(*old(choice)).1,
            ),
            sequence_of(*final(choice)) == (
                old(choice).index,
                passing_calls(
                    had_call(old(self).seen@, old(choice).index),
                    sequence_of(*old(choice)).1,
                ),
            ),
    {
        let index = choice.index as usize;
        let mut calls = match choice.calls.take() {
            Some(calls) => calls,
            None => {
                return ;
            },
        };
        if index < self.seen.len() && self.seen[index] {
            assert(self.seen@.update(index as int, true) =~= self.seen@);
            return ;
        }
        calls.truncate(1);
        if calls.len() == 0 {
            return ;
        }
        if index < self.seen.len() {
            self.seen.set(index, true);
        }
        choice.calls = Some(calls);
    }

    /// Takes the tool calls of a chunk, choice by choice, and lets pass what may pass.
    pub fn limit<T>(&mut self, choices: &mut Vec<ChoiceToolCalls<T>>)
        ensures
            final(self).parallel_tool_calls == old(self).parallel_tool_calls,
            old(self).parallel_tool_calls ==> *final(self) == *old(self) && *final(choices) == *old(
                choices,
            ),
            final(choices)@.len() == old(choices)@.len(),
            !old(self).parallel_tool_calls ==> {
                let batches = sequences_of(old(choices)@);
                &&& sequences_of(final(choices)@) == limited(old(self).seen@, batches)
                &&& final(self).seen@ == seen_through(
                    old(self).seen@,
                    batches,
                    batches.len() as int,
                )
            },
    {
        if self.parallel_tool_calls {
            return ;
        }
        let ghost before = choices@;
        let ghost batches = sequences_of(before);
        let ghost seen = self.seen@;
        let mut i: usize = 0;
        while i < choices.len()
            invariant
                i <= choices.len(),
                choices.len() == before.len(),
                batches == sequences_of(before),
                !self.parallel_tool_calls,
                self.seen@ == seen_through(seen, batches, i as int),
                forall|k: int|
                    0 <= k < i ==> sequence_of(#[trigger] choices[k]) == limited(seen, batches)[k],
                forall|k: int| i <= k < choices.len() ==> #[trigger] choices[k] == before[k],
            decreases choices.len() - i,
        {
            self.limit_choice(&mut choices[i]);
            i += 1;
        }
        assert(sequences_of(choices@) =~= limited(seen, batches));
    }
}

/// All calls that a stream's batches hold for a choice, in order.
pub open spec fn calls_for<T>(batches: Seq<(u32, Option<Seq<T>>)>, index: u32) -> Seq<T>
    decreases batches.len(),
{
    if batches.len() == 0 {
        Seq::empty()
    } else {
        let last = batches.last();
        calls_for(batches.drop_last(), index) + if last.0 == index && last.1 is Some {
            last.1->Some_0
        } else {
            Seq::empty()
        }
    }
}

proof fn lemma_seen_through_prefix<T>(
    seen: Seq<bool>,
    longer: Seq<(u32, Option<Seq<T>>)>,
    shorter: Seq<(u32, Option<Seq<T>>)>,
    count: int,
)
    requires
        0 <= count <= shorter.len() <= longer.len(),
        forall|i: int| 0 <= i < shorter.len() ==> shorter[i] == longer[i],
    ensures
        seen_through(seen, longer, count) == seen_through(seen, shorter, count),
        seen_through(seen, longer, count).len() == seen.len(),
    decreases count,
{
    if count > 0 {
        lemma_seen_through_prefix(seen, longer, shorter, count - 1);
    }
}

proof fn lemma_limited_calls<T>(
    seen: Seq<bool>,
    batches: Seq<(u32, Option<Seq<T>>)>,
    index: u32,
)
    requires
        index < seen.len(),
    ensures
        had_call(seen_through(seen, batches, batches.len() as int), index) == (had_call(seen, index)
            || calls_for(batches, index).len() > 0),
        calls_for(limited(seen, batches), index) == if had_call(seen, index) || calls_for(
            batches,
            index,
        ).len() == 0 {
            Seq::<T>::empty()
        } else {
            calls_for(batches, index).take(1)
        },
    decreases batches.len(),
{
    if batches.len() > 0 {
        let shorter = batches.drop_last();
        let n = shorter.len() as int;
        lemma_limited_calls(seen, shorter, index);
        lemma_seen_through_prefix(seen, batches, shorter, n);
        assert(limited(seen, batches).drop_last() =~= limited(seen, shorter)) by {
            assert forall|i: int| 0 <= i < n implies limited(seen, batches).drop_last()[i]
                == limited(seen, shorter)[i] by {
                lemma_seen_through_prefix(seen, batches, shorter, i);
            }
        }
        let earlier = calls_for(shorter, index);
        let offered = calls_for(batches, index);
        let passed = calls_for(limited(seen, batches), index);
        if earlier.len() > 0 {
            assert(offered.take(1) =~= earlier.take(1));
        } else if offered.len() > 0 {
            assert(offered =~= batches.last().1->Some_0);
        }
        if had_call(seen, index) || offered.len() == 0 {
            assert(passed =~= Seq::<T>::empty());
        } else {
            assert(passed =~= offered.take(1));
        }
    } else {
        assert(calls_for(limited(seen, batches), index) =~= Seq::<T>::empty());
    }
}

/// Where calls may not run in parallel, a client gets for each submitted choice the
/// first call that the stream offers for it, and no other, over the whole stream.
pub proof fn law_first_call_only<T>(
    count: nat,
    batches: Seq<(u32, Option<Seq<T>>)>,
    index: u32,
)
    requires
        index < count,
    ensures
        calls_for(limited(Seq::new(count, |i: int| false), batches), index) == if calls_for(
            batches,
            index,
        ).len() == 0 {
            Seq::<T>::empty()
        } else {
            seq![calls_for(batches, index)[0]]
        },
{
    lemma_limited_calls(Seq::new(count, |i: int| false), batches, index);
    if calls_for(batches, index).len() > 0 {
        assert(calls_for(batches, index).take(1) =~= seq![calls_for(batches, index)[0]]);
    }
}

/// Limiting a stream chunk by chunk lets pass what limiting it as a whole lets pass.
pub proof fn law_limit_chunk_by_chunk<T>(
    seen: Seq<bool>,
    first: Seq<(u32, Option<Seq<T>>)>,
    second: Seq<(u32, Option<Seq<T>>)>,
)
    ensures
        limited(seen, first + second) == limited(seen, first) + limited(
            seen_through(seen, first, first.len() as int),
            second,
        ),
        seen_through(seen, first + second, (first + second).len() as int) == seen_through(
            seen_through(seen, first, first.len() as int),
            second,
            second.len() as int,
        ),
{
    let both = first + second;
    let middle = seen_through(seen, first, first.len() as int);
    assert forall|i: int| 0 <= i <= second.len() implies seen_through(
        seen,
        both,
        first.len() + i,
    ) == #[trigger] seen_through(middle, second, i) by {
        lemma_seen_through_append(seen, first, second, i);
    }
    assert forall|i: int| 0 <= i < both.len() implies limited(seen, both)[i] == (limited(seen, first)
        + limited(middle, second))[i] by {
        if i < first.len() {
            lemma_seen_through_prefix(seen, both, first, i);
        } else {
            let k = i - first.len();
            assert(seen_through(seen, both, first.len() + k) == seen_through(middle, second, k));
        }
    }
    assert(limited(seen, both) =~= limited(seen, first) + limited(middle, second));
    assert(seen_through(seen, both, first.len() + second.len() as int) == seen_through(
        middle,
        second,
        second.len() as int,
    ));
}

proof fn lemma_seen_through_append<T>(
    seen: Seq<bool>,
    first: Seq<(u32, Option<Seq<T>>)>,
    second: Seq<(u32, Option<Seq<T>>)>,
    count: int,
)
    requires
        0 <= count <= second.len(),
    ensures
        seen_through(seen, first + second, first.len() + count) == seen_through(
            seen_through(seen, first, first.len() as int),
            second,
            count,
        ),
    decreases count,
{
    if count == 0 {
        lemma_seen_through_prefix(seen, first + second, first, first.len() as int);
    } else {
        lemma_seen_through_append(seen, first, second, count - 1);
    }
}

/// The one name that differs is `qwen`, which is `qwen25` to the parser; every other name
/// is handed on as it is. Where no parser is configured, none is run.
pub proof fn law_parser_names<'a>(
    parser: &'a str,
    name: &'a str,
    run: Option<&'a str>,
    none: Option<&'a str>,
)
    requires
        call_ensures(dynamo_parser_name, (parser,), name),
        call_ensures(parser_to_run, (Some(parser),), run),
        call_ensures(parser_to_run, (None::<&'a str>,), none),
    ensures
        parser@ == "qwen"@ ==> name@ == "qwen25"@,
        parser@ != "qwen"@ ==> name@ == parser@,
        run matches Some(chosen) && chosen@ == name@,
        none is None,
{
}

/// A delta carries each of the columns that it is made of, and nothing in any other.
pub proof fn law_deltas_carry_their_columns(
    content: Option<String>,
    role: Option<Role>,
    tool_calls: Option<Vec<ChatCompletionMessageToolCallChunk>>,
    reasoning_content: Option<String>,
    delta: ChatCompletionStreamResponseDelta,
)
    requires
        call_ensures(chat_delta, (content, role, tool_calls, reasoning_content), delta),
    ensures
        content is Some <==> delta.content is Some,
        content matches Some(text) ==> delta.content == Some(
            ChatCompletionMessageContent::Text(text),
        ),
        delta.role == role,
        delta.tool_calls == tool_calls,
        delta.reasoning_content == reasoning_content,
        delta.function_call is None,
        delta.refusal is None,
{
}

/// Each delivered call carries the id, the name and the arguments of the parsed call at its
/// own position. All are delivered, or the first alone where calls may not run in parallel,
/// next to the text that is no call.
pub proof fn law_calls_are_delivered_as_parsed(
    content: String,
    parse: ToolParse,
    parallel_tool_calls: bool,
    r: (String, Option<Vec<ChatCompletionMessageToolCall>>),
)
    requires
        parse.calls@.len() > 0,
        call_ensures(parse_chat_tool_calls, (content, Some(parse), parallel_tool_calls), r),
    ensures
        r.1 is Some,
        parallel_tool_calls ==> r.1->Some_0@.len() == parse.calls@.len(),
        !parallel_tool_calls ==> r.1->Some_0@.len() == 1,
        forall|i: int|
            0 <= i < r.1->Some_0@.len() ==> {
                let call = #[trigger] r.1->Some_0@[i];
                &&& call.id@ == parse.calls@[i].id@
                &&& call.function.name@ == parse.calls@[i].name@
                &&& call.function.arguments@ == parse.calls@[i].arguments@
                &&& call.kind == FunctionType::Function
            },
        parse.normal matches Some(normal) ==> r.0@ == normal@,
        parse.normal is None ==> r.0@.len() == 0,
{
    let calls = r.1->Some_0@;
    let parts = message_parts(content@, Some(parse), parallel_tool_calls);
    assert((r.0@, option_calls_view(r.1)) == parts);
    assert(option_calls_view(r.1) == parts.1);
    assert(calls_view(calls).len() == calls.len());
    assert forall|i: int| 0 <= i < calls.len() implies (#[trigger] calls[i])@
        == parse.calls@[i].delivered() by {
        assert(calls_view(calls)[i] == calls[i]@);
    }
}

/// Where no parser read a text, or none of it is a call, the text passes as it is and there
/// are no calls; how calls may run makes no difference.
pub proof fn law_text_without_calls_passes(
    content: String,
    parsed: Option<ToolParse>,
    parallel_tool_calls: bool,
    r: (String, Option<Vec<ChatCompletionMessageToolCall>>),
)
    requires
        parsed matches Some(parse) ==> parse.calls@.len() == 0,
        call_ensures(parse_chat_tool_calls, (content, parsed, parallel_tool_calls), r),
    ensures
        r.0@ == content@,
        r.1 is None,
{
    assert((r.0@, option_calls_view(r.1)) == message_parts(content@, parsed, parallel_tool_calls));
}

/// A finish without a kind is no finish reason. Length and content filter keep their names,
/// every other kind is a stop, and nothing else in an output matters.
pub proof fn law_finish_kinds<P>(output: ChunkEvent<P>, r: Option<FinishReason>)
    requires
        call_ensures(chat_finish_reason::<P>, (&output,), r),
    ensures
        output.finish_reason is None ==> r is None,
        output.finish_reason matches Some(finish) ==> {
            &&& finish.kind is None ==> r is None
            &&& finish.kind matches Some(kind) ==> {
                &&& kind@ == "length"@ ==> r == Some(FinishReason::Length)
                &&& kind@ == "content_filter"@ ==> r == Some(FinishReason::ContentFilter)
                &&& kind@ != "length"@ && kind@ != "content_filter"@ ==> r == Some(
                    FinishReason::Stop,
                )
            }
        },
{
    reveal_strlit("length");
    reveal_strlit("content_filter");
    assert("length"@.len() == 6 && "content_filter"@.len() == 14);
}

/// A limiter starts with no choice having had a call.
pub proof fn law_no_choice_starts_with_a_call(count: usize, parallel: bool, r: ToolCallLimiter)
    requires
        call_ensures(ToolCallLimiter::new, (count, parallel), r),
    ensures
        r.parallel_tool_calls == parallel,
        r.seen@.len() == count,
        forall|i: int| 0 <= i < count ==> !#[trigger] r.seen@[i],
{
}

/// The batch at `j` offers calls for a choice.
pub open spec fn offers<T>(choices: Seq<ChoiceToolCalls<T>>, j: int, index: u32) -> bool {
    &&& 0 <= j < choices.len()
    &&& choices[j].index == index
    &&& choices[j].calls is Some
    &&& choices[j].calls->Some_0@.len() > 0
}

proof fn lemma_seen_through_offers<T>(
    seen: Seq<bool>,
    choices: Seq<ChoiceToolCalls<T>>,
    count: int,
    index: u32,
)
    requires
        0 <= count <= choices.len(),
    ensures
        seen_through(seen, sequences_of(choices), count).len() == seen.len(),
        index < seen.len() ==> seen_through(seen, sequences_of(choices), count)[index as int] == (
        seen[index as int] || exists|j: int| j < count && #[trigger] offers(choices, j, index)),
    decreases count,
{
    let batches = sequences_of(choices);
    if count > 0 {
        lemma_seen_through_offers(seen, choices, count - 1, index);
        let before = seen_through(seen, batches, count - 1);
        let last = choices[count - 1];
        assert(batches[count - 1] == sequence_of(last));
        assert(last.index == index && last.calls is Some && last.calls->Some_0@.len() > 0
            <==> offers(choices, count - 1, index));
        if index < seen.len() {
            if exists|j: int| j < count && #[trigger] offers(choices, j, index) {
                let j = choose|j: int| j < count && #[trigger] offers(choices, j, index);
                if j < count - 1 {
                    assert(offers(choices, j, index));
                }
            }
        }
    }
}

/// Where calls may run in parallel, a limiter changes nothing. Where they may not, it lets
/// pass the first call of the first batch that offers calls for a choice which has had
/// none, and no other call for that choice; a choice that was never submitted is cut to one
/// call in every batch. Indices stay, and a choice has had its call from then on.
pub proof fn law_one_call_per_choice<T>(
    limiter: &mut ToolCallLimiter,
    choices: &mut Vec<ChoiceToolCalls<T>>,
)
    requires
        call_ensures(ToolCallLimiter::limit::<T>, (limiter, choices), ()),
    ensures
        final(choices)@.len() == old(choices)@.len(),
        final(limiter).parallel_tool_calls == old(limiter).parallel_tool_calls,
        old(limiter).parallel_tool_calls ==> final(choices)@ == old(choices)@
            && final(limiter).seen@ == old(limiter).seen@,
        !old(limiter).parallel_tool_calls ==> {
            &&& final(limiter).seen@.len() == old(limiter).seen@.len()
            &&& forall|i: int|
                0 <= i < old(limiter).seen@.len() && i <= u32::MAX ==> #[trigger] final(limiter).seen@[i] == (old(limiter).seen@[i] || exists|j: int| #[trigger]
                    offers(old(choices)@, j, i as u32))
            &&& forall|k: int|
                0 <= k < old(choices)@.len() ==> {
                    let before = old(choices)@[k];
                    let after = #[trigger] final(choices)@[k];
                    let had = before.index < old(limiter).seen@.len() && (old(limiter).seen@[before.index as int] || exists|j: int|
                        j < k && #[trigger] offers(old(choices)@, j, before.index));
                    &&& after.index == before.index
                    &&& before.calls is None ==> after.calls is None
                    &&& before.calls matches Some(calls) ==> {
                        &&& calls@.len() == 0 || had ==> after.calls is None
                        &&& calls@.len() > 0 && !had ==> after.calls is Some
                            && after.calls->Some_0@.len() == 1 && after.calls->Some_0@[0]
                            == calls@[0]
                    }
                }
        },
{
    if !old(limiter).parallel_tool_calls {
        let seen = old(limiter).seen@;
        let before = old(choices)@;
        let after = final(choices)@;
        let batches = sequences_of(before);
        assert(sequences_of(after) == limited(seen, batches));
        assert forall|i: int| 0 <= i < seen.len() && i <= u32::MAX implies #[trigger] final(limiter).seen@[i] == (seen[i] || exists|j: int| #[trigger] offers(before, j, i as u32)) by {
            lemma_seen_through_offers(seen, before, before.len() as int, i as u32);
            if exists|j: int| #[trigger] offers(before, j, i as u32) {
                let j = choose|j: int| #[trigger] offers(before, j, i as u32);
                assert(j < before.len() && offers(before, j, i as u32));
            }
        }
        lemma_seen_through_offers(seen, before, before.len() as int, 0);
        assert forall|k: int| 0 <= k < before.len() implies sequence_of(#[trigger] after[k]) == (
            before[k].index,
            passing_calls(
                had_call(seen_through(seen, batches, k), before[k].index),
                sequence_of(before[k]).1,
            ),
        ) by {
            assert(sequences_of(after)[k] == sequence_of(after[k]));
            assert(batches[k] == sequence_of(before[k]));
        }
        assert forall|k: int| 0 <= k < before.len() implies had_call(
            seen_through(seen, batches, k),
            (#[trigger] before[k]).index,
        ) == (before[k].index < seen.len() && (seen[before[k].index as int] || exists|j: int|
            j < k && #[trigger] offers(before, j, before[k].index))) by {
            lemma_seen_through_offers(seen, before, k, before[k].index);
        }
        assert forall|k: int| 0 <= k < before.len() implies {
            let had = before[k].index < seen.len() && (seen[before[k].index as int] || exists|
                j: int,
            |
                j < k && #[trigger] offers(before, j, before[k].index));
            &&& (#[trigger] after[k]).index == before[k].index
            &&& before[k].calls is None ==> after[k].calls is None
            &&& before[k].calls matches Some(calls) ==> {
                &&& calls@.len() == 0 || had ==> after[k].calls is None
                &&& calls@.len() > 0 && !had ==> after[k].calls is Some
                    && after[k].calls->Some_0@.len() == 1 && after[k].calls->Some_0@[0] == calls@[0]
            }
        } by {
            let b = before[k];
            assert(sequence_of(after[k]) == (
                b.index,
                passing_calls(
                    had_call(seen_through(seen, batches, k), b.index),
                    sequence_of(b).1,
                ),
            ));
        }
    }
}

} // verus!
