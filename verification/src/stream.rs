//! The streamed response to a chat request, one decision at a time.
//!
//! A stream opens with one chunk per choice that names the role. Every item of a
//! generation's channel is then received; an output goes through the reasoning splitter,
//! where there is one, and advances the stream by one or more chunks. The stream closes
//! with the usage, where the client asked for it.
use crate::logprobs::{chat_logprobs, chat_logprobs_view};
use crate::response::{ChunkEvent, ChunkExtras, EngineError, ResponseItem};
use crate::status::{answer_status, failure_status, Failure, INTERNAL_SERVER_ERROR};
use crate::text::{nonempty, nonempty_text, option_view};
use crate::tools::{chat_delta, chat_finish_reason, chunk_finish};
use crate::unary::{choice_index, shapeable, unary_choice, wire_index, CompletedChoice};
use crate::usage::{usage_of, OutputCount};
use crate::wire::{
    chunks_view, logprobs_view, responses_view, ChatChoiceLogprobs, ChatChoiceStream, ChunkView,
    ChatCompletionChunk, DeltaView, FinishReason, LogprobsView, Role, ServiceTier,
    StreamResponseView, Usage,
};
use vstd::prelude::*;

verus! {

/// The message of a stream whose channel ended too early.
pub const TRUNCATED: &'static str = "response truncated before completion";

/// What an item of a generation's channel asks for. `disarm` says that the generation
/// is over, so that it need not be aborted any more.
#[derive(Debug, Clone, PartialEq)]
pub enum Received<P> {
    Output { output: ChunkEvent<P>, disarm: bool },
    Failure { status: u16, message: String, disarm: bool },
    Ignored,
}

/// The status and the message of an output that reports an abort with a status.
pub open spec fn abort_of<P>(output: ChunkEvent<P>) -> Option<(u16, Seq<char>)> {
    match output.finish_reason {
        Some(reason) => match reason.abort {
            Some(abort) => Some((answer_status(abort.code), abort.message@)),
            None => None,
        },
        None => None,
    }
}

/// A failure is received, with this status and message.
pub open spec fn is_failure<P>(
    received: Received<P>,
    status: u16,
    message: Seq<char>,
    disarm: bool,
) -> bool {
    received matches Received::Failure { status: s, message: m, disarm: d } && s == status && m@
        == message && d == disarm
}

/// What an output is received as: a failure where it reports an abort with a status.
pub open spec fn output_received<P>(
    output: ChunkEvent<P>,
    disarm: bool,
    received: Received<P>,
) -> bool {
    match abort_of(output) {
        Some((status, message)) => is_failure(received, status, message, disarm),
        None => received == (Received::Output { output, disarm }),
    }
}

fn receive_output<P>(output: ChunkEvent<P>, disarm: bool) -> (r: Received<P>)
    ensures
        output_received(output, disarm, r),
{
    let failure = match &output.finish_reason {
        Some(reason) => match &reason.abort {
            Some(abort) => Some(
                Received::Failure {
                    status: failure_status(abort.code),
                    message: abort.message.clone(),
                    disarm,
                },
            ),
            None => None,
        },
        None => None,
    };
    match failure {
        Some(failure) => failure,
        None => Received::Output { output, disarm },
    }
}

/// What an item of a generation's channel is received as; `None` stands for a channel
/// that ended before the generation did.
pub open spec fn received_as<P>(item: Option<ResponseItem<P>>, received: Received<P>) -> bool {
    match item {
        None => is_failure(received, INTERNAL_SERVER_ERROR, TRUNCATED@, false),
        Some(ResponseItem::Frame(output)) => output_received(output, false, received),
        Some(ResponseItem::Done(output)) => output_received(output, true, received),
        Some(ResponseItem::Error(error)) => is_failure(
            received,
            answer_status(error.http_status),
            error.message@,
            true,
        ),
        Some(ResponseItem::Control) | Some(ResponseItem::Data) => received is Ignored,
    }
}

/// Receives an item of a generation's channel; `None` stands for a channel that ended
/// before the generation did.
pub fn receive<P>(item: Option<ResponseItem<P>>) -> (r: Received<P>)
    ensures
        received_as(item, r),
{
    match item {
        None => Received::Failure {
            status: INTERNAL_SERVER_ERROR,
            message: TRUNCATED.to_owned(),
            disarm: false,
        },
        Some(ResponseItem::Frame(output)) => receive_output(output, false),
        Some(ResponseItem::Done(output)) => receive_output(output, true),
        Some(ResponseItem::Error(error)) => Received::Failure {
            status: failure_status(error.http_status),
            message: error.message,
            disarm: true,
        },
        Some(ResponseItem::Control) => Received::Ignored,
        Some(ResponseItem::Data) => Received::Ignored,
    }
}

/// The id of the generation that a received item disarms: that of the choice the item came
/// for, or none.
pub open spec fn disarmed_rid<P>(
    received: Received<P>,
    rids: Seq<String>,
    index: usize,
) -> Option<String> {
    if received.disarms() {
        Some(rids[index as int])
    } else {
        None
    }
}

impl<P> Received<P> {
    /// Whether the generation is over.
    pub open spec fn disarms(self) -> bool {
        match self {
            Received::Output { output, disarm } => disarm,
            Received::Failure { status, message, disarm } => disarm,
            Received::Ignored => false,
        }
    }

    /// The id of the generation that need not be aborted any more: that of the choice the
    /// item came for, where the item ends it. `rids` are the ids of the choices.
    pub fn disarmed<'a>(&self, rids: &'a Vec<String>, index: usize) -> (r: Option<&'a String>)
        requires
            index < rids.len(),
        ensures
            match r {
                Some(rid) => disarmed_rid(*self, rids@, index) == Some(*rid),
                None => disarmed_rid(*self, rids@, index) is None,
            },
    {
        let disarm = match self {
            Received::Output { output: _, disarm } => *disarm,
            Received::Failure { status: _, message: _, disarm } => *disarm,
            Received::Ignored => false,
        };
        if disarm {
            Some(&rids[index])
        } else {
            None
        }
    }
}

/// An item that ends its choice, done or failed, disarms that choice's generation and no
/// other; any other item, and a channel that ends too early, disarm none.
pub proof fn law_disarmed_by_the_end<P>(
    item: Option<ResponseItem<P>>,
    received: Received<P>,
    rids: Seq<String>,
    index: usize,
)
    requires
        received_as(item, received),
        index < rids.len(),
    ensures
        disarmed_rid(received, rids, index) == if item matches Some(end) && (end is Done
            || end is Error) {
            Some(rids[index as int])
        } else {
            None
        },
{
}

/// An output that reports an abort with a status never gets to advance the stream, and a
/// failure is always answered with a number that HTTP has.
pub proof fn law_aborts_are_failures<P>(item: Option<ResponseItem<P>>, received: Received<P>)
    requires
        received_as(item, received),
    ensures
        received matches Received::Output { output, disarm } ==> abort_of(output) is None,
        received matches Received::Failure { status, message, disarm } ==> 100 <= status < 1000,
{
}

/// What the reasoning splitter made of a step's text, and what it still held back. The
/// two tails count only for the step that ends the choice.
#[derive(Debug, Clone, PartialEq)]
pub struct SplitText {
    pub reasoning: String,
    pub normal: String,
    pub reasoning_tail: String,
    pub normal_tail: String,
}

/// A chunk with these columns, and nothing in any other.
pub open spec fn chunk<P>(
    index: u32,
    content: Option<Seq<char>>,
    role: Option<Role>,
    reasoning: Option<Seq<char>>,
    finish_reason: Option<FinishReason>,
    logprobs: Option<LogprobsView<P>>,
) -> ChunkView<P> {
    ChunkView {
        index,
        delta: DeltaView {
            content,
            function_call: None,
            tool_calls: None,
            role,
            refusal: None,
            reasoning_content: reasoning,
        },
        finish_reason,
        logprobs,
    }
}

/// The chunk that opens a choice: it names the assistant as the speaker.
pub open spec fn opening_chunk<P>(index: usize) -> ChunkView<P> {
    chunk(wire_index(index), None, Some(Role::Assistant), None, None, None)
}

/// The chunks that open a stream of choices with these indices.
pub open spec fn opening_chunks<P>(indices: Seq<usize>) -> Seq<ChunkView<P>> {
    Seq::new(indices.len(), |i: int| opening_chunk(indices[i]))
}

/// A chunk of reasoning, unless there is none.
pub open spec fn reasoning_chunks<P>(
    index: u32,
    text: Seq<char>,
    logprobs: Option<LogprobsView<P>>,
) -> Seq<ChunkView<P>> {
    if text.len() == 0 {
        Seq::empty()
    } else {
        seq![chunk(index, None, None, Some(text), None, logprobs)]
    }
}

/// A chunk of answer text, unless there is none.
pub open spec fn content_chunks<P>(
    index: u32,
    text: Seq<char>,
    logprobs: Option<LogprobsView<P>>,
) -> Seq<ChunkView<P>> {
    if text.len() == 0 {
        Seq::empty()
    } else {
        seq![chunk(index, Some(text), None, None, None, logprobs)]
    }
}

/// The chunks that a step's text makes, before the finish reason is put on. The
/// reasoning comes before the answer and takes the log probabilities with it; what the
/// splitter held back follows where the step ends the choice.
pub open spec fn text_chunks<P>(
    index: u32,
    text: Seq<char>,
    split: Option<SplitText>,
    ends: bool,
    logprobs: Option<LogprobsView<P>>,
) -> Seq<ChunkView<P>> {
    match split {
        Some(split) => {
            let rest = if split.reasoning@.len() == 0 {
                logprobs
            } else {
                None
            };
            let step = reasoning_chunks(index, split.reasoning@, logprobs) + content_chunks(
                index,
                split.normal@,
                rest,
            );
            if ends {
                step + (reasoning_chunks(index, split.reasoning_tail@, None) + content_chunks(
                    index,
                    split.normal_tail@,
                    None,
                ))
            } else {
                step
            }
        },
        None => seq![chunk(index, nonempty(text), None, None, None, logprobs)],
    }
}

/// Puts the finish reason on the last chunk, or on an empty one where there is none.
pub open spec fn finished<P>(
    index: u32,
    chunks: Seq<ChunkView<P>>,
    finish_reason: Option<FinishReason>,
) -> Seq<ChunkView<P>> {
    if chunks.len() == 0 {
        seq![chunk(index, None, None, None, finish_reason, None)]
    } else {
        chunks.update(chunks.len() - 1, ChunkView { finish_reason, ..chunks.last() })
    }
}

/// The chunks that an output advances the stream by.
pub open spec fn step_chunks<P>(
    index: usize,
    output: ChunkEvent<P>,
    split: Option<SplitText>,
    want_logprobs: bool,
) -> Seq<ChunkView<P>> {
    let logprobs = if want_logprobs {
        Some(chat_logprobs_view(output.extras))
    } else {
        None
    };
    let chunks = text_chunks(
        wire_index(index),
        output.text@,
        split,
        chunk_finish(output) is Some,
        logprobs,
    );
    finished(wire_index(index), chunks, chunk_finish(output))
}

fn text_choice<P>(
    index: u32,
    content: Option<String>,
    reasoning: Option<String>,
    logprobs: Option<ChatChoiceLogprobs<P>>,
) -> (r: ChatChoiceStream<P>)
    ensures
        r@ == chunk(
            index,
            option_view(content),
            None,
            option_view(reasoning),
            None,
            logprobs_view(logprobs),
        ),
{
    ChatChoiceStream {
        index,
        delta: chat_delta(content, None, None, reasoning),
        finish_reason: None,
        logprobs,
    }
}

fn push_reasoning<P>(
    emitted: &mut Vec<ChatChoiceStream<P>>,
    index: u32,
    text: String,
    logprobs: Option<ChatChoiceLogprobs<P>>,
)
    ensures
        chunks_view(final(emitted)@) == chunks_view(old(emitted)@) + reasoning_chunks(
            index,
            text@,
            logprobs_view(logprobs),
        ),
{
    if !text.as_str().is_empty() {
        emitted.push(text_choice(index, None, Some(text), logprobs));
    }
    assert(chunks_view(emitted@) =~= chunks_view(old(emitted)@) + reasoning_chunks(
        index,
        text@,
        logprobs_view(logprobs),
    ));
}

fn push_content<P>(
    emitted: &mut Vec<ChatChoiceStream<P>>,
    index: u32,
    text: String,
    logprobs: Option<ChatChoiceLogprobs<P>>,
)
    ensures
        chunks_view(final(emitted)@) == chunks_view(old(emitted)@) + content_chunks(
            index,
            text@,
            logprobs_view(logprobs),
        ),
{
    if !text.as_str().is_empty() {
        emitted.push(text_choice(index, Some(text), None, logprobs));
    }
    assert(chunks_view(emitted@) =~= chunks_view(old(emitted)@) + content_chunks(
        index,
        text@,
        logprobs_view(logprobs),
    ));
}

/// The chunks that an output makes.
pub fn output_choices<P: Copy>(
    index: usize,
    output: ChunkEvent<P>,
    split: Option<SplitText>,
    want_logprobs: bool,
) -> (r: Vec<ChatChoiceStream<P>>)
    requires
        want_logprobs ==> shapeable(output.extras),
    ensures
        chunks_view(r@) == step_chunks(index, output, split, want_logprobs),
{
    let wire = choice_index(index);
    let finish_reason = chat_finish_reason(&output);
    let logprobs = if want_logprobs {
        Some(chat_logprobs(output.extras.as_ref()))
    } else {
        None
    };
    let ghost columns = logprobs_view(logprobs);
    let mut emitted: Vec<ChatChoiceStream<P>> = Vec::new();
    assert(chunks_view(emitted@) =~= Seq::empty());
    match split {
        Some(parts) => {
            let rides_reasoning = !parts.reasoning.as_str().is_empty();
            if rides_reasoning {
                push_reasoning(&mut emitted, wire, parts.reasoning, logprobs);
                push_content(&mut emitted, wire, parts.normal, None);
            } else {
                push_content(&mut emitted, wire, parts.normal, logprobs);
            }
            if finish_reason.is_some() {
                push_reasoning(&mut emitted, wire, parts.reasoning_tail, None);
                push_content(&mut emitted, wire, parts.normal_tail, None);
            }
        },
        None => {
            emitted.push(text_choice(wire, nonempty_text(output.text), None, logprobs));
        },
    }
    let ghost body = text_chunks(wire, output.text@, split, finish_reason is Some, columns);
    assert(chunks_view(emitted@) =~= body);
    if emitted.len() == 0 {
        emitted.push(
            ChatChoiceStream {
                index: wire,
                delta: chat_delta(None, None, None, None),
                finish_reason,
                logprobs: None,
            },
        );
    } else {
        let last = emitted.len() - 1;
        emitted[last].finish_reason = finish_reason;
    }
    assert(chunks_view(emitted@) =~= finished(wire, body, finish_reason));
    emitted
}

/// What a streamed response is about: what every chunk carries, what the client wants, and
/// the outputs that have advanced it.
pub struct StreamView<P> {
    pub response_id: Seq<char>,
    pub model: Seq<char>,
    pub created: u32,
    pub service_tier: Option<ServiceTier>,
    pub want_logprobs: bool,
    pub include_usage: bool,
    pub outputs: Seq<ChunkEvent<P>>,
}

impl<P> StreamView<P> {
    /// A chunk of this response.
    pub open spec fn envelope(
        self,
        choices: Seq<ChunkView<P>>,
        usage: Option<Usage>,
    ) -> StreamResponseView<P> {
        StreamResponseView {
            id: self.response_id,
            choices,
            created: self.created,
            model: self.model,
            service_tier: self.service_tier,
            system_fingerprint: None,
            object: "chat.completion.chunk"@,
            usage,
        }
    }

    /// One chunk of this response for each choice chunk.
    pub open spec fn envelopes(self, chunks: Seq<ChunkView<P>>) -> Seq<StreamResponseView<P>> {
        Seq::new(chunks.len(), |i: int| self.envelope(seq![chunks[i]], None))
    }

    /// The response once more outputs have advanced it.
    pub open spec fn advanced(self, outputs: Seq<ChunkEvent<P>>) -> StreamView<P> {
        StreamView { outputs: self.outputs + outputs, ..self }
    }
}

/// A streamed response under way.
pub struct ChatStream<P> {
    response_id: String,
    model: String,
    created: u32,
    service_tier: Option<ServiceTier>,
    want_logprobs: bool,
    include_usage: bool,
    count: OutputCount<P>,
}

impl<P> View for ChatStream<P> {
    type V = StreamView<P>;

    closed spec fn view(&self) -> StreamView<P> {
        StreamView {
            response_id: self.response_id@,
            model: self.model@,
            created: self.created,
            service_tier: self.service_tier,
            want_logprobs: self.want_logprobs,
            include_usage: self.include_usage,
            outputs: self.count.outputs(),
        }
    }
}

/// What a stream sends to its client before it ends: a chunk, or a failure.
#[derive(Debug, Clone, PartialEq)]
pub enum Emitted<P> {
    Chunk(ChatCompletionChunk<P>),
    Failure(Failure),
}

/// A frame of a stream: a chunk of the response, a failure, or the mark of the end.
pub enum RunFrame<P> {
    Chunk(StreamResponseView<P>),
    Failure { status: u16, message: Seq<char> },
    Done,
}

impl<P> View for Emitted<P> {
    type V = RunFrame<P>;

    open spec fn view(&self) -> RunFrame<P> {
        match self {
            Emitted::Chunk(chunk) => RunFrame::Chunk(chunk@),
            Emitted::Failure(failure) => RunFrame::Failure {
                status: failure.status,
                message: failure.message@,
            },
        }
    }
}

/// What each thing that a stream sends holds.
pub open spec fn emitted_view<P>(emitted: Seq<Emitted<P>>) -> Seq<RunFrame<P>> {
    Seq::new(emitted.len(), |i: int| emitted[i]@)
}

/// Each chunk as a frame.
pub open spec fn chunk_frames<P>(chunks: Seq<StreamResponseView<P>>) -> Seq<RunFrame<P>> {
    Seq::new(chunks.len(), |i: int| RunFrame::Chunk(chunks[i]))
}

/// The frames that a received item makes.
pub open spec fn received_frames<P>(
    stream: StreamView<P>,
    index: usize,
    received: Received<P>,
    split: Option<SplitText>,
) -> Seq<RunFrame<P>> {
    match received {
        Received::Output { output, disarm } => chunk_frames(
            stream.envelopes(step_chunks(index, output, split, stream.want_logprobs)),
        ),
        Received::Failure { status, message, disarm } => seq![
            RunFrame::Failure { status, message: message@ },
        ],
        Received::Ignored => Seq::empty(),
    }
}

/// The outputs that a received item brings: one, or none.
pub open spec fn received_outputs<P>(received: Received<P>) -> Seq<ChunkEvent<P>> {
    match received {
        Received::Output { output, disarm } => seq![output],
        _ => Seq::empty(),
    }
}

impl<P: Copy> ChatStream<P> {
    /// A stream that no output has advanced yet.
    pub fn new(
        response_id: String,
        model: String,
        created: u32,
        service_tier: Option<ServiceTier>,
        want_logprobs: bool,
        include_usage: bool,
    ) -> (r: Self)
        ensures
            r@ == (StreamView {
                response_id: response_id@,
                model: model@,
                created,
                service_tier,
                want_logprobs,
                include_usage,
                outputs: Seq::<ChunkEvent<P>>::empty(),
            }),
    {
        ChatStream {
            response_id,
            model,
            created,
            service_tier,
            want_logprobs,
            include_usage,
            count: OutputCount::new(),
        }
    }

    fn response(&self, choices: Vec<ChatChoiceStream<P>>, usage: Option<Usage>) -> (r:
        ChatCompletionChunk<P>)
        ensures
            r@ == self@.envelope(chunks_view(choices@), usage),
    {
        ChatCompletionChunk {
            id: self.response_id.clone(),
            choices,
            created: self.created,
            model: self.model.clone(),
            service_tier: self.service_tier,
            system_fingerprint: None,
            object: "chat.completion.chunk".to_owned(),
            usage,
        }
    }

    fn single_choice(&self, choice: ChatChoiceStream<P>) -> (r: ChatCompletionChunk<P>)
        ensures
            r@ == self@.envelope(seq![choice@], None),
    {
        let mut choices: Vec<ChatChoiceStream<P>> = Vec::new();
        choices.push(choice);
        assert(chunks_view(choices@) =~= seq![choice@]);
        self.response(choices, None)
    }

    /// The chunk that opens a choice: it names the assistant as the speaker.
    pub fn open(&self, index: usize) -> (r: ChatCompletionChunk<P>)
        ensures
            r@ == self@.envelope(seq![opening_chunk(index)], None),
    {
        self.single_choice(
            ChatChoiceStream {
                index: choice_index(index),
                delta: chat_delta(None, Some(Role::Assistant), None, None),
                finish_reason: None,
                logprobs: None,
            },
        )
    }

    /// The chunks that open a stream of choices, one per choice and in the order in which
    /// they were submitted.
    pub fn open_all(&self, indices: &Vec<usize>) -> (r: Vec<ChatCompletionChunk<P>>)
        ensures
            responses_view(r@) == self@.envelopes(opening_chunks(indices@)),
    {
        let mut responses: Vec<ChatCompletionChunk<P>> = Vec::new();
        let mut i: usize = 0;
        while i < indices.len()
            invariant
                i <= indices.len(),
                responses.len() == i,
                forall|k: int|
                    0 <= k < i ==> (#[trigger] responses[k])@ == self@.envelope(
                        seq![opening_chunk(indices[k])],
                        None,
                    ),
            decreases indices.len() - i,
        {
            responses.push(self.open(indices[i]));
            i += 1;
        }
        assert(responses_view(responses@) =~= self@.envelopes(opening_chunks(indices@)));
        responses
    }

    /// Counts an output and gives the chunks that it makes, each in a response of its own.
    pub fn advance(&mut self, index: usize, output: ChunkEvent<P>, split: Option<SplitText>) -> (r:
        Vec<ChatCompletionChunk<P>>)
        requires
            old(self)@.want_logprobs ==> shapeable(output.extras),
        ensures
            final(self)@ == old(self)@.advanced(seq![output]),
            responses_view(r@) == old(self)@.envelopes(
                step_chunks(index, output, split, old(self)@.want_logprobs),
            ),
    {
        self.count.count(&output);
        assert(self@.outputs =~= old(self)@.outputs + seq![output]);
        let emitted = output_choices(index, output, split, self.want_logprobs);
        let ghost chunks = chunks_view(emitted@);
        let ghost all = emitted@;
        let mut responses: Vec<ChatCompletionChunk<P>> = Vec::new();
        for choice in iter: emitted
            invariant
                iter.seq() == all,
                chunks == chunks_view(all),
                responses.len() == iter.index(),
                forall|i: int|
                    0 <= i < responses.len() ==> (#[trigger] responses[i])@ == self@.envelope(
                        seq![chunks[i]],
                        None,
                    ),
        {
            responses.push(self.single_choice(choice));
        }
        assert(responses_view(responses@) =~= old(self)@.envelopes(chunks));
        responses
    }

    /// What the client is sent for a received item: the chunks of an output, a failure, or
    /// nothing.
    pub fn react(&mut self, index: usize, received: Received<P>, split: Option<SplitText>) -> (r:
        Vec<Emitted<P>>)
        requires
            old(self)@.want_logprobs ==> (received matches Received::Output { output, disarm }
                ==> shapeable(output.extras)),
        ensures
            final(self)@ == old(self)@.advanced(received_outputs(received)),
            emitted_view(r@) == received_frames(old(self)@, index, received, split),
    {
        let mut emitted: Vec<Emitted<P>> = Vec::new();
        match received {
            Received::Output { output, disarm: _ } => {
                let responses = self.advance(index, output, split);
                let ghost all = responses@;
                for response in iter: responses
                    invariant
                        iter.seq() == all,
                        emitted.len() == iter.index(),
                        forall|i: int|
                            0 <= i < emitted.len() ==> (#[trigger] emitted[i])@
                                == RunFrame::Chunk(all[i]@),
                {
                    emitted.push(Emitted::Chunk(response));
                }
                assert(emitted_view(emitted@) =~= chunk_frames(responses_view(all)));
            },
            Received::Failure { status, message, disarm: _ } => {
                emitted.push(Emitted::Failure(Failure { status, message }));
            },
            Received::Ignored => {},
        }
        assert(self@.outputs =~= old(self)@.advanced(received_outputs(received)).outputs);
        assert(emitted_view(emitted@) =~= received_frames(old(self)@, index, received, split));
        emitted
    }

    /// The chunk that closes the stream with the usage, where the client gets one.
    pub fn close(&self) -> (r: Option<ChatCompletionChunk<P>>)
        ensures
            match r {
                Some(response) => self@.include_usage && response@ == self@.envelope(
                    Seq::empty(),
                    Some(usage_of(self@.outputs)),
                ),
                None => !self@.include_usage,
            },
    {
        if self.include_usage {
            let choices: Vec<ChatChoiceStream<P>> = Vec::new();
            assert(chunks_view(choices@) =~= Seq::empty());
            Some(self.response(choices, Some(self.count.usage())))
        } else {
            None
        }
    }
}

/// The answer text that chunks bring together.
pub open spec fn answer_text<P>(chunks: Seq<ChunkView<P>>) -> Seq<char>
    decreases chunks.len(),
{
    if chunks.len() == 0 {
        Seq::empty()
    } else {
        answer_text(chunks.drop_last()) + match chunks.last().delta.content {
            Some(text) => text,
            None => Seq::empty(),
        }
    }
}

/// The reasoning that chunks bring together.
pub open spec fn reasoning_text<P>(chunks: Seq<ChunkView<P>>) -> Seq<char>
    decreases chunks.len(),
{
    if chunks.len() == 0 {
        Seq::empty()
    } else {
        reasoning_text(chunks.drop_last()) + match chunks.last().delta.reasoning_content {
            Some(text) => text,
            None => Seq::empty(),
        }
    }
}

/// The answer text of a step: all its text, or what the splitter made an answer of.
pub open spec fn step_answer<P>(output: ChunkEvent<P>, split: Option<SplitText>) -> Seq<char> {
    match split {
        Some(split) => if chunk_finish(output) is Some {
            split.normal@ + split.normal_tail@
        } else {
            split.normal@
        },
        None => output.text@,
    }
}

/// The reasoning of a step: what the splitter made reasoning of.
pub open spec fn step_reasoning<P>(output: ChunkEvent<P>, split: Option<SplitText>) -> Seq<char> {
    match split {
        Some(split) => if chunk_finish(output) is Some {
            split.reasoning@ + split.reasoning_tail@
        } else {
            split.reasoning@
        },
        None => Seq::empty(),
    }
}

pub proof fn lemma_texts_append<P>(first: Seq<ChunkView<P>>, second: Seq<ChunkView<P>>)
    ensures
        answer_text(first + second) == answer_text(first) + answer_text(second),
        reasoning_text(first + second) == reasoning_text(first) + reasoning_text(second),
    decreases second.len(),
{
    if second.len() == 0 {
        assert(first + second =~= first);
        assert(answer_text(first) + answer_text(second) =~= answer_text(first));
        assert(reasoning_text(first) + reasoning_text(second) =~= reasoning_text(first));
    } else {
        let both = first + second;
        assert(both.drop_last() =~= first + second.drop_last());
        assert(both.last() == second.last());
        lemma_texts_append(first, second.drop_last());
        assert(answer_text(both) =~= answer_text(first) + answer_text(second));
        assert(reasoning_text(both) =~= reasoning_text(first) + reasoning_text(second));
    }
}

proof fn lemma_texts_single<P>(one: ChunkView<P>)
    ensures
        answer_text(seq![one]) == match one.delta.content {
            Some(text) => text,
            None => Seq::empty(),
        },
        reasoning_text(seq![one]) == match one.delta.reasoning_content {
            Some(text) => text,
            None => Seq::empty(),
        },
{
    assert(seq![one].drop_last() =~= Seq::empty());
    assert(answer_text(Seq::<ChunkView<P>>::empty()) =~= Seq::empty());
    assert(reasoning_text(Seq::<ChunkView<P>>::empty()) =~= Seq::empty());
    assert(answer_text(seq![one]) =~= match one.delta.content {
        Some(text) => text,
        None => Seq::empty(),
    });
    assert(reasoning_text(seq![one]) =~= match one.delta.reasoning_content {
        Some(text) => text,
        None => Seq::empty(),
    });
}

proof fn lemma_texts_pieces<P>(index: u32, text: Seq<char>, logprobs: Option<LogprobsView<P>>)
    ensures
        answer_text(content_chunks(index, text, logprobs)) == text,
        reasoning_text(content_chunks(index, text, logprobs)) == Seq::<char>::empty(),
        answer_text(reasoning_chunks(index, text, logprobs)) == Seq::<char>::empty(),
        reasoning_text(reasoning_chunks(index, text, logprobs)) == text,
{
    if text.len() == 0 {
        assert(text =~= Seq::empty());
    } else {
        lemma_texts_single(chunk(index, Some(text), None, None, None, logprobs));
        lemma_texts_single(chunk(index, None, None, Some(text), None, logprobs));
    }
}

proof fn lemma_texts_finished<P>(
    index: u32,
    chunks: Seq<ChunkView<P>>,
    finish_reason: Option<FinishReason>,
)
    ensures
        answer_text(finished(index, chunks, finish_reason)) == answer_text(chunks),
        reasoning_text(finished(index, chunks, finish_reason)) == reasoning_text(chunks),
{
    if chunks.len() == 0 {
        lemma_texts_single(chunk::<P>(index, None, None, None, finish_reason, None));
        assert(answer_text(chunks) =~= Seq::empty());
        assert(reasoning_text(chunks) =~= Seq::empty());
    } else {
        assert(finished(index, chunks, finish_reason).drop_last() =~= chunks.drop_last());
    }
}

/// A step loses no text: its chunks bring the step's answer and the step's reasoning,
/// each whole and in order.
pub proof fn law_step_keeps_text<P>(
    index: usize,
    output: ChunkEvent<P>,
    split: Option<SplitText>,
    want_logprobs: bool,
)
    ensures
        answer_text(step_chunks(index, output, split, want_logprobs)) == step_answer(output, split),
        reasoning_text(step_chunks(index, output, split, want_logprobs)) == step_reasoning(
            output,
            split,
        ),
{
    let wire = wire_index(index);
    let logprobs = if want_logprobs {
        Some(chat_logprobs_view(output.extras))
    } else {
        None
    };
    let ends = chunk_finish(output) is Some;
    let chunks = text_chunks(wire, output.text@, split, ends, logprobs);
    lemma_texts_finished(wire, chunks, chunk_finish(output));
    match split {
        Some(parts) => {
            let rest = if parts.reasoning@.len() == 0 {
                logprobs
            } else {
                None
            };
            let head = reasoning_chunks(wire, parts.reasoning@, logprobs);
            let body = content_chunks(wire, parts.normal@, rest);
            let reasoning_tail = reasoning_chunks::<P>(wire, parts.reasoning_tail@, None);
            let normal_tail = content_chunks::<P>(wire, parts.normal_tail@, None);
            lemma_texts_pieces(wire, parts.reasoning@, logprobs);
            lemma_texts_pieces(wire, parts.normal@, rest);
            lemma_texts_pieces::<P>(wire, parts.reasoning_tail@, None);
            lemma_texts_pieces::<P>(wire, parts.normal_tail@, None);
            lemma_texts_append(head, body);
            lemma_texts_append(reasoning_tail, normal_tail);
            lemma_texts_append(head + body, reasoning_tail + normal_tail);
            assert(answer_text(chunks) =~= step_answer(output, split));
            assert(reasoning_text(chunks) =~= step_reasoning(output, split));
        },
        None => {
            lemma_texts_single(chunk(wire, nonempty(output.text@), None, None, None, logprobs));
            assert(answer_text(chunks) =~= output.text@);
        },
    }
}

/// Every step makes at least one chunk, all of them for its choice; the finish reason
/// rides the last one and no other.
pub proof fn law_finish_rides_the_last_chunk<P>(
    index: usize,
    output: ChunkEvent<P>,
    split: Option<SplitText>,
    want_logprobs: bool,
)
    ensures
        ({
            let chunks = step_chunks(index, output, split, want_logprobs);
            &&& chunks.len() >= 1
            &&& chunks.last().finish_reason == chunk_finish(output)
            &&& forall|i: int|
                0 <= i < chunks.len() - 1 ==> (#[trigger] chunks[i]).finish_reason is None
            &&& forall|i: int|
                0 <= i < chunks.len() ==> (#[trigger] chunks[i]).index == wire_index(index)
        }),
{
}

/// Log probabilities ride the first chunk of a step and no other; they are there where
/// the client wants them and the step brings text of its own, or is not split.
pub proof fn law_logprobs_ride_the_first_chunk<P>(
    index: usize,
    output: ChunkEvent<P>,
    split: Option<SplitText>,
    want_logprobs: bool,
)
    ensures
        ({
            let chunks = step_chunks(index, output, split, want_logprobs);
            let has_text = split matches Some(parts) ==> parts.reasoning@.len() > 0
                || parts.normal@.len() > 0;
            &&& chunks[0].logprobs == if want_logprobs && has_text {
                Some(chat_logprobs_view(output.extras))
            } else {
                None
            }
            &&& forall|i: int|
                0 < i < chunks.len() ==> (#[trigger] chunks[i]).logprobs is None
        }),
{
}

/// A step that brings both sends its reasoning in one chunk and its answer in the next.
pub proof fn law_reasoning_comes_first<P>(
    index: usize,
    output: ChunkEvent<P>,
    split: SplitText,
    want_logprobs: bool,
)
    requires
        split.reasoning@.len() > 0,
        split.normal@.len() > 0,
    ensures
        ({
            let chunks = step_chunks(index, output, Some(split), want_logprobs);
            &&& chunks.len() >= 2
            &&& chunks[0].delta.reasoning_content == Some(split.reasoning@)
            &&& chunks[0].delta.content is None
            &&& chunks[1].delta.content == Some(split.normal@)
            &&& chunks[1].delta.reasoning_content is None
        }),
{
}

/// The chunks that a choice gets over some steps of its generation.
pub open spec fn run_chunks<P>(
    index: usize,
    steps: Seq<(ChunkEvent<P>, Option<SplitText>)>,
    want_logprobs: bool,
) -> Seq<ChunkView<P>>
    decreases steps.len(),
{
    if steps.len() == 0 {
        Seq::empty()
    } else {
        run_chunks(index, steps.drop_last(), want_logprobs) + step_chunks(
            index,
            steps.last().0,
            steps.last().1,
            want_logprobs,
        )
    }
}

/// The answer text of some steps together.
pub open spec fn run_answer<P>(steps: Seq<(ChunkEvent<P>, Option<SplitText>)>) -> Seq<char>
    decreases steps.len(),
{
    if steps.len() == 0 {
        Seq::empty()
    } else {
        run_answer(steps.drop_last()) + step_answer(steps.last().0, steps.last().1)
    }
}

/// The reasoning of some steps together.
pub open spec fn run_reasoning<P>(steps: Seq<(ChunkEvent<P>, Option<SplitText>)>) -> Seq<char>
    decreases steps.len(),
{
    if steps.len() == 0 {
        Seq::empty()
    } else {
        run_reasoning(steps.drop_last()) + step_reasoning(steps.last().0, steps.last().1)
    }
}

/// A choice's stream loses no text: over all its steps, its chunks bring the answers and
/// the reasoning of the steps, each whole and in order.
pub proof fn law_stream_keeps_text<P>(
    index: usize,
    steps: Seq<(ChunkEvent<P>, Option<SplitText>)>,
    want_logprobs: bool,
)
    ensures
        answer_text(run_chunks(index, steps, want_logprobs)) == run_answer(steps),
        reasoning_text(run_chunks(index, steps, want_logprobs)) == run_reasoning(steps),
    decreases steps.len(),
{
    if steps.len() > 0 {
        let last = steps.last();
        law_stream_keeps_text(index, steps.drop_last(), want_logprobs);
        law_step_keeps_text(index, last.0, last.1, want_logprobs);
        lemma_texts_append(
            run_chunks(index, steps.drop_last(), want_logprobs),
            step_chunks(index, last.0, last.1, want_logprobs),
        );
    }
}

/// A generation without tool calls reads the same streamed in one step and answered at
/// once: the answer, the reasoning, the index and the finish reason agree.
pub proof fn law_streamed_and_whole_answers_agree<P>(
    completed: CompletedChoice<P>,
    split: Option<SplitText>,
    want_logprobs: bool,
    parallel_tool_calls: bool,
)
    requires
        completed.parsed is None,
        completed.text@ == step_answer(completed.output, split),
        completed.reasoning_text@ == step_reasoning(completed.output, split),
    ensures
        ({
            let chunks = step_chunks(completed.index, completed.output, split, want_logprobs);
            let choice = unary_choice(completed, want_logprobs, parallel_tool_calls);
            &&& nonempty(answer_text(chunks)) == choice.content
            &&& nonempty(reasoning_text(chunks)) == choice.reasoning_content
            &&& chunks.last().finish_reason == choice.finish_reason
            &&& forall|i: int|
                0 <= i < chunks.len() ==> (#[trigger] chunks[i]).index == choice.index
        }),
{
    law_step_keeps_text(completed.index, completed.output, split, want_logprobs);
    law_finish_rides_the_last_chunk(completed.index, completed.output, split, want_logprobs);
}

/// An output whose finish reason carries an abort status is a failure with that status,
/// where HTTP has it, and with that message; any other output is received as it is. Both
/// are over for an item that is done, and not over for a frame.
pub proof fn law_outputs_are_received<P>(
    output: ChunkEvent<P>,
    frame: Received<P>,
    done: Received<P>,
)
    requires
        call_ensures(receive::<P>, (Some(ResponseItem::Frame(output)),), frame),
        call_ensures(receive::<P>, (Some(ResponseItem::Done(output)),), done),
    ensures
        output.finish_reason is None || output.finish_reason->Some_0.abort is None ==> frame == (
        Received::Output { output, disarm: false }) && done == (Received::Output {
            output,
            disarm: true,
        }),
        output.finish_reason is Some && output.finish_reason->Some_0.abort is Some ==> {
            let abort = output.finish_reason->Some_0.abort->Some_0;
            &&& frame is Failure
            &&& done is Failure
            &&& frame->Failure_message@ == abort.message@
            &&& done->Failure_message@ == abort.message@
            &&& 100 <= abort.code <= 999 ==> frame->Failure_status == abort.code
                && done->Failure_status == abort.code
            &&& abort.code < 100 || abort.code > 999 ==> frame->Failure_status == 500
                && done->Failure_status == 500
            &&& !frame->Failure_disarm
            &&& done->Failure_disarm
        },
{
}

/// A channel that ends too early is an internal error that leaves the generation armed. An
/// error of the engine is a failure with its own message, and with its own status where
/// HTTP has it. Other items ask for nothing.
pub proof fn law_other_items_are_received<P>(
    error: EngineError,
    truncated: Received<P>,
    failed: Received<P>,
    control: Received<P>,
    data: Received<P>,
)
    requires
        call_ensures(receive::<P>, (None::<ResponseItem<P>>,), truncated),
        call_ensures(receive::<P>, (Some(ResponseItem::<P>::Error(error)),), failed),
        call_ensures(receive::<P>, (Some(ResponseItem::<P>::Control),), control),
        call_ensures(receive::<P>, (Some(ResponseItem::<P>::Data),), data),
    ensures
        truncated is Failure,
        truncated->Failure_status == 500,
        truncated->Failure_message@ == "response truncated before completion"@,
        !truncated->Failure_disarm,
        failed is Failure,
        failed->Failure_message@ == error.message@,
        100 <= error.http_status <= 999 ==> failed->Failure_status == error.http_status,
        error.http_status < 100 || error.http_status > 999 ==> failed->Failure_status == 500,
        failed->Failure_disarm,
        control is Ignored,
        data is Ignored,
{
}

/// What an item disarms is the id at the index of its own choice, where it says that the
/// generation is over, and nothing where it does not.
pub proof fn law_items_disarm_their_own_choice<'a, P>(
    received: Received<P>,
    rids: &'a Vec<String>,
    index: usize,
    r: Option<&'a String>,
)
    requires
        index < rids@.len(),
        call_ensures(Received::<P>::disarmed, (&received, rids, index), r),
    ensures
        received is Ignored ==> r is None,
        received matches Received::Output { output, disarm } ==> r is Some == disarm,
        received matches Received::Failure { status, message, disarm } ==> r is Some == disarm,
        r matches Some(rid) ==> *rid == rids@[index as int],
{
}

/// Without a splitter a step is one chunk with the step's text as it is, or with none where
/// there is none.
pub proof fn law_unsplit_steps<P: Copy>(
    index: usize,
    output: ChunkEvent<P>,
    want_logprobs: bool,
    r: Vec<ChatChoiceStream<P>>,
)
    requires
        call_ensures(output_choices::<P>, (index, output, None::<SplitText>, want_logprobs), r),
    ensures
        r@.len() == 1,
        output.text@.len() > 0 ==> r@[0].delta.content is Some
            && r@[0].delta.content->Some_0->Text_0@ == output.text@,
        output.text@.len() == 0 ==> r@[0].delta.content is None,
        r@[0].delta.reasoning_content is None,
{
    assert(chunks_view(r@).len() == r@.len());
    assert(chunks_view(r@)[0] == r@[0]@);
}

/// A chunk brings answer text and nothing else in its delta's text columns.
pub open spec fn brings_answer<P>(choice: ChatChoiceStream<P>, text: Seq<char>) -> bool {
    &&& choice.delta.content is Some
    &&& choice.delta.content->Some_0->Text_0@ == text
    &&& choice.delta.reasoning_content is None
}

/// A chunk brings reasoning and nothing else in its delta's text columns.
pub open spec fn brings_reasoning<P>(choice: ChatChoiceStream<P>, text: Seq<char>) -> bool {
    &&& choice.delta.content is None
    &&& choice.delta.reasoning_content is Some
    &&& choice.delta.reasoning_content->Some_0@ == text
}

proof fn lemma_finished_deltas<P>(
    index: u32,
    chunks: Seq<ChunkView<P>>,
    finish_reason: Option<FinishReason>,
)
    ensures
        chunks.len() > 0 ==> finished(index, chunks, finish_reason).len() == chunks.len(),
        forall|i: int|
            0 <= i < chunks.len() ==> (#[trigger] finished(index, chunks, finish_reason)[i]).delta
                == chunks[i].delta,
        chunks.len() == 0 ==> finished(index, chunks, finish_reason) == seq![
            chunk::<P>(index, None, None, None, finish_reason, None),
        ],
{
}

proof fn lemma_split_deltas<P>(
    index: u32,
    text: Seq<char>,
    split: SplitText,
    ends: bool,
    logprobs: Option<LogprobsView<P>>,
)
    ensures
        ({
            let chunks = text_chunks(index, text, Some(split), ends, logprobs);
            let first: int = if split.reasoning@.len() > 0 {
                1
            } else {
                0
            };
            let second: int = if split.normal@.len() > 0 {
                first + 1
            } else {
                first
            };
            let third: int = if ends && split.reasoning_tail@.len() > 0 {
                second + 1
            } else {
                second
            };
            let fourth: int = if ends && split.normal_tail@.len() > 0 {
                third + 1
            } else {
                third
            };
            &&& chunks.len() == fourth
            &&& split.reasoning@.len() > 0 ==> chunks[0].delta.reasoning_content == Some(
                split.reasoning@,
            ) && chunks[0].delta.content is None
            &&& split.normal@.len() > 0 ==> chunks[first].delta.content == Some(split.normal@)
                && chunks[first].delta.reasoning_content is None
            &&& ends && split.reasoning_tail@.len() > 0 ==> chunks[second].delta.reasoning_content
                == Some(split.reasoning_tail@) && chunks[second].delta.content is None
            &&& ends && split.normal_tail@.len() > 0 ==> chunks[third].delta.content == Some(
                split.normal_tail@,
            ) && chunks[third].delta.reasoning_content is None
        }),
{
    let rest = if split.reasoning@.len() == 0 {
        logprobs
    } else {
        None
    };
    let head = reasoning_chunks(index, split.reasoning@, logprobs);
    let body = content_chunks(index, split.normal@, rest);
    let step = head + body;
    let reasoning_tail = reasoning_chunks::<P>(index, split.reasoning_tail@, None);
    let normal_tail = content_chunks::<P>(index, split.normal_tail@, None);
    let tail = reasoning_tail + normal_tail;
    let chunks = text_chunks(index, text, Some(split), ends, logprobs);
    if split.reasoning@.len() > 0 {
        assert(step[0] == head[0]);
    }
    if split.normal@.len() > 0 {
        assert(step[head.len() as int] == body[0]);
    }
    if ends {
        assert(chunks == step + tail);
        if split.reasoning_tail@.len() > 0 {
            assert(chunks[step.len() as int] == reasoning_tail[0]);
        }
        if split.normal_tail@.len() > 0 {
            assert(chunks[(step.len() + reasoning_tail.len()) as int] == normal_tail[0]);
        }
    } else {
        assert(chunks == step);
    }
}

proof fn lemma_text_chunks_columns<P>(
    index: u32,
    text: Seq<char>,
    split: Option<SplitText>,
    ends: bool,
    logprobs: Option<LogprobsView<P>>,
)
    ensures
        forall|i: int|
            0 <= i < text_chunks(index, text, split, ends, logprobs).len() ==> {
                let delta = (#[trigger] text_chunks(index, text, split, ends, logprobs)[i]).delta;
                &&& delta.role is None
                &&& delta.tool_calls is None
                &&& delta.function_call is None
                &&& delta.refusal is None
            },
{
}

/// With a splitter a step is one chunk for each part of its text that is not empty: the
/// reasoning, the answer, and, where the step ends the choice, the reasoning and the answer
/// that were held back, in this order. Where all are empty there is one chunk without text.
pub proof fn law_split_steps<P: Copy>(
    index: usize,
    output: ChunkEvent<P>,
    split: SplitText,
    want_logprobs: bool,
    r: Vec<ChatChoiceStream<P>>,
)
    requires
        call_ensures(output_choices::<P>, (index, output, Some(split), want_logprobs), r),
    ensures
        ({
            let ends = output.finish_reason is Some && output.finish_reason->Some_0.kind is Some;
            let first: int = if split.reasoning@.len() > 0 {
                1
            } else {
                0
            };
            let second: int = if split.normal@.len() > 0 {
                first + 1
            } else {
                first
            };
            let third: int = if ends && split.reasoning_tail@.len() > 0 {
                second + 1
            } else {
                second
            };
            let fourth: int = if ends && split.normal_tail@.len() > 0 {
                third + 1
            } else {
                third
            };
            &&& fourth > 0 ==> r@.len() == fourth
            &&& split.reasoning@.len() > 0 ==> brings_reasoning(r@[0], split.reasoning@)
            &&& split.normal@.len() > 0 ==> brings_answer(r@[first], split.normal@)
            &&& ends && split.reasoning_tail@.len() > 0 ==> brings_reasoning(
                r@[second],
                split.reasoning_tail@,
            )
            &&& ends && split.normal_tail@.len() > 0 ==> brings_answer(
                r@[third],
                split.normal_tail@,
            )
            &&& fourth == 0 ==> r@.len() == 1 && r@[0].delta.content is None
                && r@[0].delta.reasoning_content is None
        }),
{
    let logprobs = if want_logprobs {
        Some(chat_logprobs_view(output.extras))
    } else {
        None
    };
    let wire = wire_index(index);
    let finish = chunk_finish(output);
    let plain = text_chunks(wire, output.text@, Some(split), finish is Some, logprobs);
    let chunks = finished(wire, plain, finish);
    assert(chunks_view(r@) == chunks);
    lemma_split_deltas(wire, output.text@, split, finish is Some, logprobs);
    lemma_finished_deltas(wire, plain, finish);
    lemma_deltas_of_views(r@, chunks);
}

proof fn lemma_deltas_of_views<P>(choices: Seq<ChatChoiceStream<P>>, chunks: Seq<ChunkView<P>>)
    requires
        chunks_view(choices) == chunks,
    ensures
        choices.len() == chunks.len(),
        forall|i: int|
            0 <= i < choices.len() ==> {
                let delta = (#[trigger] choices[i]).delta;
                &&& choices[i]@ == chunks[i]
                &&& delta.content is Some == chunks[i].delta.content is Some
                &&& delta.content is Some ==> delta.content->Some_0->Text_0@
                    == chunks[i].delta.content->Some_0
                &&& delta.reasoning_content is Some == chunks[i].delta.reasoning_content is Some
                &&& delta.reasoning_content is Some ==> delta.reasoning_content->Some_0@
                    == chunks[i].delta.reasoning_content->Some_0
            },
{
    assert(chunks_view(choices).len() == choices.len());
    assert forall|i: int| 0 <= i < choices.len() implies (#[trigger] choices[i])@ == chunks[i] by {
        assert(chunks_view(choices)[i] == choices[i]@);
    }
}

/// Every chunk of a step is for the step's choice, and names no role, no call and no
/// refusal. The finish reason that the output gives is on the last of them, and on no other.
pub proof fn law_finish_is_on_the_last_chunk_of_a_step<P: Copy>(
    index: usize,
    output: ChunkEvent<P>,
    split: Option<SplitText>,
    want_logprobs: bool,
    r: Vec<ChatChoiceStream<P>>,
    finish_reason: Option<FinishReason>,
)
    requires
        call_ensures(output_choices::<P>, (index, output, split, want_logprobs), r),
        call_ensures(chat_finish_reason::<P>, (&output,), finish_reason),
    ensures
        r@.len() > 0,
        r@.last().finish_reason == finish_reason,
        forall|i: int|
            0 <= i < r@.len() - 1 ==> (#[trigger] r@[i]).finish_reason is None,
        forall|i: int|
            0 <= i < r@.len() ==> {
                let choice = #[trigger] r@[i];
                &&& index <= u32::MAX ==> choice.index == index
                &&& index > u32::MAX ==> choice.index == u32::MAX
                &&& choice.delta.role is None
                &&& choice.delta.tool_calls is None
                &&& choice.delta.function_call is None
                &&& choice.delta.refusal is None
            },
{
    let logprobs = if want_logprobs {
        Some(chat_logprobs_view(output.extras))
    } else {
        None
    };
    let wire = wire_index(index);
    let finish = chunk_finish(output);
    let plain = text_chunks(wire, output.text@, split, finish is Some, logprobs);
    let chunks = step_chunks(index, output, split, want_logprobs);
    assert(chunks == finished(wire, plain, finish));
    law_finish_rides_the_last_chunk(index, output, split, want_logprobs);
    lemma_text_chunks_columns(wire, output.text@, split, finish is Some, logprobs);
    lemma_finished_deltas(wire, plain, finish);
    lemma_deltas_of_views(r@, chunks);
    assert forall|i: int| 0 <= i < r@.len() implies {
        let delta = (#[trigger] r@[i]).delta;
        &&& delta.role is None
        &&& delta.tool_calls is None
        &&& delta.function_call is None
        &&& delta.refusal is None
    } by {
        assert(r@[i]@ == chunks[i]);
        if plain.len() > 0 {
            assert(chunks[i].delta == plain[i].delta);
        }
    }
    assert forall|i: int| 0 <= i < r@.len() - 1 implies (
    #[trigger] r@[i]).finish_reason is None by {
        assert(r@[i]@ == chunks[i]);
    }
    assert forall|i: int| 0 <= i < r@.len() implies (#[trigger] r@[i]).index == wire by {
        assert(r@[i]@ == chunks[i]);
    }
    assert(r@.last()@ == chunks.last());
}

/// Log probabilities are on the first chunk of a step and on no other, where the client
/// wants them and the step brings text of its own or is not split; they are those that the
/// step's own output gives.
pub proof fn law_logprobs_are_on_the_first_chunk_of_a_step<P: Copy>(
    index: usize,
    output: ChunkEvent<P>,
    split: Option<SplitText>,
    want_logprobs: bool,
    r: Vec<ChatChoiceStream<P>>,
    extras: Option<&ChunkExtras<P>>,
    logprobs: ChatChoiceLogprobs<P>,
)
    requires
        call_ensures(output_choices::<P>, (index, output, split, want_logprobs), r),
        extras is Some <==> output.extras is Some,
        extras matches Some(columns) ==> output.extras == Some(*columns),
        call_ensures(chat_logprobs::<P>, (extras,), logprobs),
    ensures
        r@.len() > 0,
        forall|i: int| 0 < i < r@.len() ==> (#[trigger] r@[i]).logprobs is None,
        r@[0].logprobs is Some <==> want_logprobs && (split is None
            || split->Some_0.reasoning@.len() > 0 || split->Some_0.normal@.len() > 0),
        r@[0].logprobs matches Some(own) ==> own@ == logprobs@,
{
    let chunks = step_chunks(index, output, split, want_logprobs);
    assert(chunks_view(r@) == chunks);
    assert(chunks_view(r@).len() == r@.len());
    assert forall|i: int| 0 <= i < r@.len() implies (#[trigger] r@[i])@ == chunks[i] by {
        assert(chunks_view(r@)[i] == r@[i]@);
    }
    law_finish_rides_the_last_chunk(index, output, split, want_logprobs);
    law_logprobs_ride_the_first_chunk(index, output, split, want_logprobs);
}

/// A new stream is about what it was made with, and nothing has advanced it.
pub proof fn law_new_streams<P: Copy>(
    response_id: String,
    model: String,
    created: u32,
    service_tier: Option<ServiceTier>,
    want_logprobs: bool,
    include_usage: bool,
    stream: ChatStream<P>,
)
    requires
        call_ensures(
            ChatStream::<P>::new,
            (response_id, model, created, service_tier, want_logprobs, include_usage),
            stream,
        ),
    ensures
        stream@.response_id == response_id@,
        stream@.model == model@,
        stream@.created == created,
        stream@.service_tier == service_tier,
        stream@.want_logprobs == want_logprobs,
        stream@.include_usage == include_usage,
        stream@.outputs.len() == 0,
{
}

/// A chunk is in the envelope of its stream: the id, the model, the time and the tier.
pub open spec fn in_envelope<P>(chunk: ChatCompletionChunk<P>, stream: StreamView<P>) -> bool {
    &&& chunk.id@ == stream.response_id
    &&& chunk.model@ == stream.model
    &&& chunk.created == stream.created
    &&& chunk.service_tier == stream.service_tier
    &&& chunk.system_fingerprint is None
    &&& chunk.object@ == "chat.completion.chunk"@
}

/// The chunk that opens a choice names the assistant under the choice's index, and holds
/// nothing else.
pub proof fn law_opening_chunks_name_the_assistant<P: Copy>(
    stream: ChatStream<P>,
    index: usize,
    r: ChatCompletionChunk<P>,
)
    requires
        call_ensures(ChatStream::<P>::open, (&stream, index), r),
    ensures
        in_envelope(r, stream@),
        r.usage is None,
        r.choices@.len() == 1,
        index <= u32::MAX ==> r.choices@[0].index == index,
        index > u32::MAX ==> r.choices@[0].index == u32::MAX,
        r.choices@[0].delta.role == Some(Role::Assistant),
        r.choices@[0].delta.content is None,
        r.choices@[0].delta.reasoning_content is None,
        r.choices@[0].delta.tool_calls is None,
        r.choices@[0].delta.function_call is None,
        r.choices@[0].delta.refusal is None,
        r.choices@[0].finish_reason is None,
        r.choices@[0].logprobs is None,
{
    assert(chunks_view(r.choices@).len() == r.choices@.len());
    assert(chunks_view(r.choices@)[0] == r.choices@[0]@);
}

/// Opening all choices opens each of them, in their order.
pub proof fn law_all_choices_are_opened<P: Copy>(
    stream: ChatStream<P>,
    indices: Vec<usize>,
    r: Vec<ChatCompletionChunk<P>>,
    i: int,
    one: ChatCompletionChunk<P>,
)
    requires
        call_ensures(ChatStream::<P>::open_all, (&stream, &indices), r),
        0 <= i < indices@.len() ==> call_ensures(
            ChatStream::<P>::open,
            (&stream, indices@[i]),
            one,
        ),
    ensures
        r@.len() == indices@.len(),
        0 <= i < indices@.len() ==> r@[i]@ == one@,
{
    assert(responses_view(r@).len() == r@.len());
    if 0 <= i < indices@.len() {
        assert(responses_view(r@)[i] == r@[i]@);
    }
}

/// Advancing a stream takes the output in at the end and changes nothing else about the
/// stream. Each chunk that the output makes is sent in the stream's envelope, alone and
/// without usage, in its order.
pub proof fn law_outputs_advance_the_stream<P: Copy>(
    stream: &mut ChatStream<P>,
    index: usize,
    output: ChunkEvent<P>,
    split: Option<SplitText>,
    r: Vec<ChatCompletionChunk<P>>,
    choices: Vec<ChatChoiceStream<P>>,
)
    requires
        call_ensures(ChatStream::<P>::advance, (stream, index, output, split), r),
        call_ensures(
            output_choices::<P>,
            (index, output, split, old(stream)@.want_logprobs),
            choices,
        ),
    ensures
        final(stream)@.outputs == old(stream)@.outputs.push(output),
        final(stream)@.response_id == old(stream)@.response_id,
        final(stream)@.model == old(stream)@.model,
        final(stream)@.created == old(stream)@.created,
        final(stream)@.service_tier == old(stream)@.service_tier,
        final(stream)@.want_logprobs == old(stream)@.want_logprobs,
        final(stream)@.include_usage == old(stream)@.include_usage,
        r@.len() == choices@.len(),
        forall|i: int|
            0 <= i < r@.len() ==> in_envelope(#[trigger] r@[i], old(stream)@) && r@[i].usage is None
                && r@[i].choices@.len() == 1 && r@[i].choices@[0]@ == choices@[i]@,
{
    assert(final(stream)@.outputs =~= old(stream)@.outputs.push(output));
    let chunks = chunks_view(choices@);
    assert(chunks.len() == choices@.len());
    assert(responses_view(r@).len() == r@.len());
    assert forall|i: int| 0 <= i < r@.len() implies in_envelope(#[trigger] r@[i], old(stream)@)
        && r@[i].usage is None && r@[i].choices@.len() == 1 && r@[i].choices@[0]@
        == choices@[i]@ by {
        assert(responses_view(r@)[i] == r@[i]@);
        assert(r@[i]@ == old(stream)@.envelope(seq![chunks[i]], None));
        assert(chunks_view(r@[i].choices@).len() == r@[i].choices@.len());
        assert(chunks_view(r@[i].choices@)[0] == r@[i].choices@[0]@);
        assert(chunks[i] == choices@[i]@);
    }
}

/// A stream reacts to an output with the chunks that the output makes, in its envelope and
/// in their order, and is advanced by it.
pub proof fn law_reactions_to_outputs<P: Copy>(
    stream: &mut ChatStream<P>,
    index: usize,
    output: ChunkEvent<P>,
    disarm: bool,
    split: Option<SplitText>,
    r: Vec<Emitted<P>>,
    choices: Vec<ChatChoiceStream<P>>,
)
    requires
        call_ensures(
            ChatStream::<P>::react,
            (stream, index, Received::Output { output, disarm }, split),
            r,
        ),
        call_ensures(
            output_choices::<P>,
            (index, output, split, old(stream)@.want_logprobs),
            choices,
        ),
    ensures
        final(stream)@.outputs == old(stream)@.outputs.push(output),
        r@.len() == choices@.len(),
        forall|i: int|
            0 <= i < r@.len() ==> (#[trigger] r@[i]) is Chunk && in_envelope(
                r@[i]->Chunk_0,
                old(stream)@,
            ) && r@[i]->Chunk_0.usage is None && r@[i]->Chunk_0.choices@.len() == 1
                && r@[i]->Chunk_0.choices@[0]@ == choices@[i]@,
{
    assert(final(stream)@.outputs =~= old(stream)@.outputs.push(output));
    let received = Received::Output { output, disarm };
    let chunks = chunks_view(choices@);
    assert(chunks.len() == choices@.len());
    assert(emitted_view(r@).len() == r@.len());
    assert(received_frames(old(stream)@, index, received, split) == chunk_frames(
        old(stream)@.envelopes(chunks),
    ));
    assert forall|i: int| 0 <= i < r@.len() implies (#[trigger] r@[i]) is Chunk && in_envelope(
        r@[i]->Chunk_0,
        old(stream)@,
    ) && r@[i]->Chunk_0.usage is None && r@[i]->Chunk_0.choices@.len() == 1
        && r@[i]->Chunk_0.choices@[0]@ == choices@[i]@ by {
        assert(emitted_view(r@)[i] == r@[i]@);
        assert(r@[i]@ == RunFrame::Chunk(old(stream)@.envelope(seq![chunks[i]], None)));
        let chunk = r@[i]->Chunk_0;
        assert(chunks_view(chunk.choices@).len() == chunk.choices@.len());
        assert(chunks_view(chunk.choices@)[0] == chunk.choices@[0]@);
        assert(chunks[i] == choices@[i]@);
    }
}

/// A stream reacts to a failure with that failure alone and to an ignored item with
/// nothing; neither advances it.
pub proof fn law_reactions_to_other_items<P: Copy>(
    stream: &mut ChatStream<P>,
    index: usize,
    received: Received<P>,
    split: Option<SplitText>,
    r: Vec<Emitted<P>>,
)
    requires
        !(received is Output),
        call_ensures(ChatStream::<P>::react, (stream, index, received, split), r),
    ensures
        final(stream)@.outputs == old(stream)@.outputs,
        received is Ignored ==> r@.len() == 0,
        received matches Received::Failure { status, message, disarm } ==> r@.len() == 1
            && r@[0] is Failure && r@[0]->Failure_0.status == status && r@[0]->Failure_0.message@
            == message@,
{
    assert(final(stream)@.outputs =~= old(stream)@.outputs);
    assert(emitted_view(r@).len() == r@.len());
    if received is Failure {
        assert(emitted_view(r@)[0] == r@[0]@);
    }
}

/// Reacting to any item leaves what a stream is about as it was.
pub proof fn law_reactions_keep_the_response<P: Copy>(
    stream: &mut ChatStream<P>,
    index: usize,
    received: Received<P>,
    split: Option<SplitText>,
    r: Vec<Emitted<P>>,
)
    requires
        call_ensures(ChatStream::<P>::react, (stream, index, received, split), r),
    ensures
        final(stream)@.response_id == old(stream)@.response_id,
        final(stream)@.model == old(stream)@.model,
        final(stream)@.created == old(stream)@.created,
        final(stream)@.service_tier == old(stream)@.service_tier,
        final(stream)@.want_logprobs == old(stream)@.want_logprobs,
        final(stream)@.include_usage == old(stream)@.include_usage,
{
}

/// A stream closes with a chunk where the client gets the usage, and with none where not;
/// the chunk has no choices and the usage of the outputs that advanced the stream.
pub proof fn law_streams_close_with_the_usage<P: Copy>(
    stream: ChatStream<P>,
    r: Option<ChatCompletionChunk<P>>,
)
    requires
        call_ensures(ChatStream::<P>::close, (&stream,), r),
    ensures
        r is Some <==> stream@.include_usage,
        r matches Some(chunk) ==> in_envelope(chunk, stream@) && chunk.choices@.len() == 0
            && chunk.usage == Some(usage_of(stream@.outputs)),
{
    if r is Some {
        assert(chunks_view(r->Some_0.choices@).len() == r->Some_0.choices@.len());
    }
}

/// An output that carries an abort status reaches the client as a failure with that status,
/// where HTTP has it, and with that message, and as nothing else: no chunk is sent for it,
/// and it does not count.
pub proof fn law_aborts_reach_the_client_as_failures<P: Copy>(
    output: ChunkEvent<P>,
    done: bool,
    received: Received<P>,
    stream: &mut ChatStream<P>,
    index: usize,
    split: Option<SplitText>,
    r: Vec<Emitted<P>>,
)
    requires
        output.finish_reason is Some,
        output.finish_reason->Some_0.abort is Some,
        call_ensures(
            receive::<P>,
            (Some(
                if done {
                    ResponseItem::Done(output)
                } else {
                    ResponseItem::Frame(output)
                },
            ),),
            received,
        ),
        call_ensures(ChatStream::<P>::react, (stream, index, received, split), r),
    ensures
        r@.len() == 1,
        r@[0] is Failure,
        r@[0]->Failure_0.message@ == output.finish_reason->Some_0.abort->Some_0.message@,
        100 <= output.finish_reason->Some_0.abort->Some_0.code <= 999
            ==> r@[0]->Failure_0.status == output.finish_reason->Some_0.abort->Some_0.code,
        final(stream)@.outputs == old(stream)@.outputs,
{
    law_reactions_to_other_items(stream, index, received, split, r);
}

} // verus!
