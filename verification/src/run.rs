//! A streamed response from its first frame to its last.
use crate::response::{ChunkEvent, ResponseItem};
use crate::status::{answer_status, INTERNAL_SERVER_ERROR};
use crate::stream::{
    abort_of, answer_text, chunk_frames, law_finish_rides_the_last_chunk, law_step_keeps_text,
    lemma_texts_append, opening_chunk, opening_chunks, reasoning_text, received_as,
    received_frames, received_outputs, step_answer, step_chunks, step_reasoning, Received,
    RunFrame, SplitText, StreamView, TRUNCATED,
};
use crate::unary::wire_index;
use crate::usage::usage_of;
use crate::wire::{ChunkView, StreamResponseView};
use vstd::prelude::*;

verus! {

/// What came for a choice: an item of its channel, or the end of a channel that ended too
/// early, and what the reasoning splitter made of the item's text.
pub struct Arrival<P> {
    pub index: usize,
    pub item: Option<ResponseItem<P>>,
    pub split: Option<SplitText>,
}

/// The output that an arrival advances the stream by, where it does: one that reports no
/// abort with a status.
pub open spec fn arrived_output<P>(arrival: Arrival<P>) -> Option<ChunkEvent<P>> {
    match arrival.item {
        Some(ResponseItem::Frame(output)) | Some(ResponseItem::Done(output)) => if abort_of(
            output,
        ) is None {
            Some(output)
        } else {
            None
        },
        _ => None,
    }
}

/// The failure that an arrival reports, where it does.
pub open spec fn arrived_failure<P>(arrival: Arrival<P>) -> Option<(u16, Seq<char>)> {
    match arrival.item {
        None => Some((INTERNAL_SERVER_ERROR, TRUNCATED@)),
        Some(ResponseItem::Frame(output)) | Some(ResponseItem::Done(output)) => abort_of(output),
        Some(ResponseItem::Error(error)) => Some((answer_status(error.http_status), error.message@)),
        Some(ResponseItem::Control) | Some(ResponseItem::Data) => None,
    }
}

/// The frames that an arrival makes: the chunks of its output, its failure, or none.
pub open spec fn arrived_frames<P>(stream: StreamView<P>, arrival: Arrival<P>) -> Seq<RunFrame<P>> {
    match (arrived_output(arrival), arrived_failure(arrival)) {
        (Some(output), _) => chunk_frames(
            stream.envelopes(
                step_chunks(arrival.index, output, arrival.split, stream.want_logprobs),
            ),
        ),
        (None, Some((status, message))) => seq![RunFrame::Failure { status, message }],
        (None, None) => Seq::empty(),
    }
}

/// The outputs that advance the stream, in the order in which they arrive.
pub open spec fn run_outputs<P>(arrivals: Seq<Arrival<P>>) -> Seq<ChunkEvent<P>>
    decreases arrivals.len(),
{
    if arrivals.len() == 0 {
        Seq::empty()
    } else {
        let before = run_outputs(arrivals.drop_last());
        match arrived_output(arrivals.last()) {
            Some(output) => before.push(output),
            None => before,
        }
    }
}

/// How many arrivals report a failure.
pub open spec fn run_failures<P>(arrivals: Seq<Arrival<P>>) -> nat
    decreases arrivals.len(),
{
    if arrivals.len() == 0 {
        0
    } else if arrived_failure(arrivals.last()) is Some {
        run_failures(arrivals.drop_last()) + 1
    } else {
        run_failures(arrivals.drop_last())
    }
}

/// The frames that arrivals make, one arrival behind the other.
pub open spec fn body_frames<P>(
    stream: StreamView<P>,
    arrivals: Seq<Arrival<P>>,
) -> Seq<RunFrame<P>>
    decreases arrivals.len(),
{
    if arrivals.len() == 0 {
        Seq::empty()
    } else {
        body_frames(stream, arrivals.drop_last()) + arrived_frames(stream, arrivals.last())
    }
}

/// The frames that open the choices with these indices.
pub open spec fn opening_frames<P>(
    stream: StreamView<P>,
    indices: Seq<usize>,
) -> Seq<RunFrame<P>> {
    chunk_frames(stream.envelopes(opening_chunks(indices)))
}

/// The frame of the usage, where the client gets one.
pub open spec fn closing_frames<P>(
    stream: StreamView<P>,
    outputs: Seq<ChunkEvent<P>>,
) -> Seq<RunFrame<P>> {
    if stream.include_usage {
        seq![RunFrame::Chunk(stream.envelope(Seq::empty(), Some(usage_of(outputs))))]
    } else {
        Seq::empty()
    }
}

/// The frames of a stream that is read to its end: one per submitted choice to open it,
/// those of the arrivals, the usage where the client gets it, and the mark of the end.
pub open spec fn run_frames<P>(
    stream: StreamView<P>,
    indices: Seq<usize>,
    arrivals: Seq<Arrival<P>>,
) -> Seq<RunFrame<P>> {
    opening_frames(stream, indices) + body_frames(stream, arrivals) + closing_frames(
        stream,
        run_outputs(arrivals),
    ) + seq![RunFrame::Done]
}

/// Reacting to what an arrival is received as takes a stream through its run: it sends the
/// arrival's frames, and the outputs behind it are those of the run so far.
pub proof fn law_reactions_make_the_run<P>(
    stream: StreamView<P>,
    arrivals: Seq<Arrival<P>>,
    arrival: Arrival<P>,
    received: Received<P>,
)
    requires
        stream.outputs.len() == 0,
        received_as(arrival.item, received),
    ensures
        ({
            let state = stream.advanced(run_outputs(arrivals));
            let longer = arrivals.push(arrival);
            &&& body_frames(stream, longer) == body_frames(stream, arrivals) + received_frames(
                state,
                arrival.index,
                received,
                arrival.split,
            )
            &&& stream.advanced(run_outputs(longer)) == state.advanced(received_outputs(received))
            &&& state.outputs == run_outputs(arrivals)
        }),
{
    let state = stream.advanced(run_outputs(arrivals));
    let longer = arrivals.push(arrival);
    assert(longer.drop_last() =~= arrivals);
    assert(state.outputs =~= run_outputs(arrivals));
    let sent = received_frames(state, arrival.index, received, arrival.split);
    match received {
        Received::Output { output, disarm } => {
            let chunks = step_chunks(arrival.index, output, arrival.split, stream.want_logprobs);
            assert(state.envelopes(chunks) =~= stream.envelopes(chunks));
        },
        _ => {},
    }
    assert(sent =~= arrived_frames(stream, arrival));
    assert(stream.advanced(run_outputs(longer)).outputs =~= state.advanced(
        received_outputs(received),
    ).outputs);
}

/// A chunk carries the id, the model, the time and the tier of the response.
pub open spec fn is_chunk_of<P>(chunk: StreamResponseView<P>, stream: StreamView<P>) -> bool {
    &&& chunk.id == stream.response_id
    &&& chunk.model == stream.model
    &&& chunk.created == stream.created
    &&& chunk.service_tier == stream.service_tier
    &&& chunk.system_fingerprint is None
    &&& chunk.object == "chat.completion.chunk"@
}

/// A frame of the middle of a stream: a failure, or a chunk of the response with one
/// choice that names no role, no usage, and no empty text.
pub open spec fn is_body_frame<P>(frame: RunFrame<P>, stream: StreamView<P>) -> bool {
    match frame {
        RunFrame::Chunk(chunk) => {
            &&& is_chunk_of(chunk, stream)
            &&& chunk.usage is None
            &&& chunk.choices.len() == 1
            &&& chunk.choices[0].delta.role is None
            &&& chunk.choices[0].delta.content matches Some(text) ==> text.len() > 0
            &&& chunk.choices[0].delta.reasoning_content matches Some(text) ==> text.len() > 0
        },
        RunFrame::Failure { status, message } => true,
        RunFrame::Done => false,
    }
}

proof fn lemma_step_chunks_shape<P>(
    index: usize,
    output: ChunkEvent<P>,
    split: Option<SplitText>,
    want_logprobs: bool,
)
    ensures
        forall|i: int|
            0 <= i < step_chunks(index, output, split, want_logprobs).len() ==> {
                let chunk = #[trigger] step_chunks(index, output, split, want_logprobs)[i];
                &&& chunk.delta.role is None
                &&& chunk.delta.content matches Some(text) ==> text.len() > 0
                &&& chunk.delta.reasoning_content matches Some(text) ==> text.len() > 0
            },
        split is None ==> step_chunks(index, output, split, want_logprobs).len() == 1,
{
}

proof fn lemma_body_frames<P>(stream: StreamView<P>, arrivals: Seq<Arrival<P>>)
    ensures
        forall|i: int|
            0 <= i < body_frames(stream, arrivals).len() ==> is_body_frame(
                #[trigger] body_frames(stream, arrivals)[i],
                stream,
            ),
    decreases arrivals.len(),
{
    if arrivals.len() > 0 {
        lemma_body_frames(stream, arrivals.drop_last());
        let before = body_frames(stream, arrivals.drop_last());
        let last = arrivals.last();
        let added = arrived_frames(stream, last);
        match arrived_output(last) {
            Some(output) => {
                lemma_step_chunks_shape(last.index, output, last.split, stream.want_logprobs);
                let chunks = step_chunks(last.index, output, last.split, stream.want_logprobs);
                assert forall|i: int| 0 <= i < added.len() implies is_body_frame(
                    #[trigger] added[i],
                    stream,
                ) by {
                    assert(added[i] == RunFrame::Chunk(stream.envelope(seq![chunks[i]], None)));
                }
            },
            None => {},
        }
        assert forall|i: int| 0 <= i < body_frames(stream, arrivals).len() implies is_body_frame(
            #[trigger] body_frames(stream, arrivals)[i],
            stream,
        ) by {
            if i >= before.len() {
                assert(body_frames(stream, arrivals)[i] == added[i - before.len()]);
            }
        }
    }
}

/// The mark of the end is the last frame of a stream and no other; every frame before it is
/// a chunk of the response or a failure. This holds too where nothing was submitted and
/// where every choice fails.
pub proof fn law_done_comes_last<P>(
    stream: StreamView<P>,
    indices: Seq<usize>,
    arrivals: Seq<Arrival<P>>,
)
    ensures
        ({
            let run = run_frames(stream, indices, arrivals);
            &&& run.len() > 0
            &&& run.last() is Done
            &&& forall|i: int|
                0 <= i < run.len() - 1 ==> match #[trigger] run[i] {
                    RunFrame::Chunk(chunk) => is_chunk_of(chunk, stream),
                    RunFrame::Failure { status, message } => true,
                    RunFrame::Done => false,
                }
        }),
{
    lemma_body_frames(stream, arrivals);
    let run = run_frames(stream, indices, arrivals);
    let opening = opening_frames(stream, indices);
    let body = body_frames(stream, arrivals);
    assert forall|i: int| 0 <= i < run.len() - 1 implies match #[trigger] run[i] {
        RunFrame::Chunk(chunk) => is_chunk_of(chunk, stream),
        RunFrame::Failure { status, message } => true,
        RunFrame::Done => false,
    } by {
        if opening.len() <= i < opening.len() + body.len() {
            assert(run[i] == body[i - opening.len()]);
            assert(is_body_frame(body[i - opening.len()], stream));
        }
    }
}

/// A stream opens with one frame per submitted choice, in the order of submission, that
/// names the assistant under the choice's index and holds nothing else; no later frame
/// names a role.
pub proof fn law_roles_come_first<P>(
    stream: StreamView<P>,
    indices: Seq<usize>,
    arrivals: Seq<Arrival<P>>,
)
    ensures
        ({
            let run = run_frames(stream, indices, arrivals);
            &&& run.len() > indices.len()
            &&& forall|i: int|
                0 <= i < indices.len() ==> #[trigger] run[i] == RunFrame::Chunk(
                    stream.envelope(seq![opening_chunk(indices[i])], None),
                )
            &&& forall|i: int, k: int|
                #![trigger run[i]->Chunk_0.choices[k]]
                indices.len() <= i < run.len() && run[i] is Chunk && 0 <= k
                    < run[i]->Chunk_0.choices.len() ==> run[i]->Chunk_0.choices[k].delta.role is None
        }),
{
    lemma_body_frames(stream, arrivals);
    let run = run_frames(stream, indices, arrivals);
    let opening = opening_frames(stream, indices);
    let body = body_frames(stream, arrivals);
    assert forall|i: int, k: int|
        #![trigger run[i]->Chunk_0.choices[k]]
        indices.len() <= i < run.len() && run[i] is Chunk && 0 <= k
            < run[i]->Chunk_0.choices.len() implies run[i]->Chunk_0.choices[k].delta.role is None by {
        if i < opening.len() + body.len() {
            assert(run[i] == body[i - opening.len()]);
            assert(is_body_frame(body[i - opening.len()], stream));
        }
    }
}

/// Where the client gets the usage, it stands in one frame without choices, right before
/// the mark of the end, and is that of the outputs that arrived without an abort status;
/// no other frame has one. Where the client gets none, no frame has one.
pub proof fn law_usage_comes_before_the_end<P>(
    stream: StreamView<P>,
    indices: Seq<usize>,
    arrivals: Seq<Arrival<P>>,
)
    ensures
        ({
            let run = run_frames(stream, indices, arrivals);
            &&& stream.include_usage ==> run.len() >= 2 && run[run.len() - 2] == RunFrame::Chunk(
                stream.envelope(Seq::empty(), Some(usage_of(run_outputs(arrivals)))),
            )
            &&& forall|i: int|
                0 <= i < run.len() && (#[trigger] run[i]) is Chunk ==> (run[i]->Chunk_0.usage is Some
                    == (stream.include_usage && i == run.len() - 2))
        }),
{
    lemma_body_frames(stream, arrivals);
    let run = run_frames(stream, indices, arrivals);
    let opening = opening_frames(stream, indices);
    let body = body_frames(stream, arrivals);
    assert forall|i: int| 0 <= i < run.len() && (#[trigger] run[i]) is Chunk implies (
    run[i]->Chunk_0.usage is Some == (stream.include_usage && i == run.len() - 2)) by {
        if opening.len() <= i < opening.len() + body.len() {
            assert(run[i] == body[i - opening.len()]);
            assert(is_body_frame(body[i - opening.len()], stream));
        }
    }
}

proof fn lemma_body_count<P>(stream: StreamView<P>, arrivals: Seq<Arrival<P>>)
    requires
        forall|i: int| 0 <= i < arrivals.len() ==> (#[trigger] arrivals[i]).split is None,
    ensures
        body_frames(stream, arrivals).len() == run_outputs(arrivals).len() + run_failures(arrivals),
    decreases arrivals.len(),
{
    if arrivals.len() > 0 {
        let last = arrivals.last();
        lemma_body_count(stream, arrivals.drop_last());
        match arrived_output(last) {
            Some(output) => {
                lemma_step_chunks_shape(last.index, output, last.split, stream.want_logprobs);
            },
            None => {},
        }
    }
}

/// Without a reasoning splitter every output makes one frame, as every failure does; other
/// items make none.
pub proof fn law_one_frame_per_output<P>(
    stream: StreamView<P>,
    indices: Seq<usize>,
    arrivals: Seq<Arrival<P>>,
)
    requires
        forall|i: int| 0 <= i < arrivals.len() ==> (#[trigger] arrivals[i]).split is None,
    ensures
        run_frames(stream, indices, arrivals).len() == indices.len() + run_outputs(arrivals).len()
            + run_failures(arrivals) + (if stream.include_usage {
            1int
        } else {
            0int
        }) + 1,
{
    lemma_body_count(stream, arrivals);
}

/// The chunks among these that are for a choice.
pub open spec fn of_choice<P>(chunks: Seq<ChunkView<P>>, wire: u32) -> Seq<ChunkView<P>>
    decreases chunks.len(),
{
    if chunks.len() == 0 {
        Seq::empty()
    } else {
        let before = of_choice(chunks.drop_last(), wire);
        if chunks.last().index == wire {
            before.push(chunks.last())
        } else {
            before
        }
    }
}

/// The chunks that frames bring for a choice, in their order.
pub open spec fn choice_chunks<P>(frames: Seq<RunFrame<P>>, wire: u32) -> Seq<ChunkView<P>>
    decreases frames.len(),
{
    if frames.len() == 0 {
        Seq::empty()
    } else {
        let before = choice_chunks(frames.drop_last(), wire);
        match frames.last() {
            RunFrame::Chunk(chunk) => before + of_choice(chunk.choices, wire),
            _ => before,
        }
    }
}

/// The answer text that arrivals bring for a choice.
pub open spec fn arrived_answer<P>(arrivals: Seq<Arrival<P>>, wire: u32) -> Seq<char>
    decreases arrivals.len(),
{
    if arrivals.len() == 0 {
        Seq::empty()
    } else {
        let last = arrivals.last();
        let before = arrived_answer(arrivals.drop_last(), wire);
        match arrived_output(last) {
            Some(output) => if wire_index(last.index) == wire {
                before + step_answer(output, last.split)
            } else {
                before
            },
            None => before,
        }
    }
}

/// The reasoning that arrivals bring for a choice.
pub open spec fn arrived_reasoning<P>(arrivals: Seq<Arrival<P>>, wire: u32) -> Seq<char>
    decreases arrivals.len(),
{
    if arrivals.len() == 0 {
        Seq::empty()
    } else {
        let last = arrivals.last();
        let before = arrived_reasoning(arrivals.drop_last(), wire);
        match arrived_output(last) {
            Some(output) => if wire_index(last.index) == wire {
                before + step_reasoning(output, last.split)
            } else {
                before
            },
            None => before,
        }
    }
}

proof fn lemma_choice_chunks_append<P>(
    first: Seq<RunFrame<P>>,
    second: Seq<RunFrame<P>>,
    wire: u32,
)
    ensures
        choice_chunks(first + second, wire) == choice_chunks(first, wire) + choice_chunks(
            second,
            wire,
        ),
    decreases second.len(),
{
    if second.len() == 0 {
        assert(first + second =~= first);
        assert(choice_chunks(first, wire) + choice_chunks(second, wire) =~= choice_chunks(
            first,
            wire,
        ));
    } else {
        let both = first + second;
        assert(both.drop_last() =~= first + second.drop_last());
        assert(both.last() == second.last());
        lemma_choice_chunks_append(first, second.drop_last(), wire);
        assert(choice_chunks(both, wire) =~= choice_chunks(first, wire) + choice_chunks(
            second,
            wire,
        ));
    }
}

proof fn lemma_of_choice_single<P>(chunk: ChunkView<P>, wire: u32)
    ensures
        of_choice(seq![chunk], wire) == if chunk.index == wire {
            seq![chunk]
        } else {
            Seq::empty()
        },
{
    assert(seq![chunk].drop_last() =~= Seq::empty());
    assert(of_choice(Seq::<ChunkView<P>>::empty(), wire) =~= Seq::empty());
    assert(of_choice(seq![chunk], wire) =~= if chunk.index == wire {
        seq![chunk]
    } else {
        Seq::empty()
    });
}

/// Frames of one choice chunk each, all for the same choice, bring that choice all chunks
/// and any other none.
proof fn lemma_choice_chunks_of_one<P>(
    stream: StreamView<P>,
    chunks: Seq<ChunkView<P>>,
    index: u32,
    wire: u32,
)
    requires
        forall|i: int| 0 <= i < chunks.len() ==> (#[trigger] chunks[i]).index == index,
    ensures
        choice_chunks(chunk_frames(stream.envelopes(chunks)), wire) == if index == wire {
            chunks
        } else {
            Seq::empty()
        },
    decreases chunks.len(),
{
    let frames = chunk_frames(stream.envelopes(chunks));
    if chunks.len() > 0 {
        let shorter = chunks.drop_last();
        assert(frames.drop_last() =~= chunk_frames(stream.envelopes(shorter)));
        lemma_choice_chunks_of_one(stream, shorter, index, wire);
        assert(frames.last() == RunFrame::Chunk(stream.envelope(seq![chunks.last()], None)));
        lemma_of_choice_single(chunks.last(), wire);
        assert(chunks.last().index == index);
        assert(choice_chunks(frames, wire) =~= if index == wire {
            chunks
        } else {
            Seq::empty()
        });
    } else {
        assert(choice_chunks(frames, wire) =~= Seq::empty());
        assert(chunks =~= Seq::empty());
    }
}

proof fn lemma_opening_brings_no_text<P>(stream: StreamView<P>, indices: Seq<usize>, wire: u32)
    ensures
        answer_text(choice_chunks(opening_frames(stream, indices), wire)) == Seq::<char>::empty(),
        reasoning_text(choice_chunks(opening_frames(stream, indices), wire)) == Seq::<
            char,
        >::empty(),
    decreases indices.len(),
{
    let frames = opening_frames(stream, indices);
    if indices.len() > 0 {
        let shorter = opening_frames(stream, indices.drop_last());
        assert(frames.drop_last() =~= shorter);
        lemma_opening_brings_no_text(stream, indices.drop_last(), wire);
        let last = opening_chunk::<P>(indices.last());
        assert(frames.last() == RunFrame::Chunk(stream.envelope(seq![last], None)));
        lemma_of_choice_single(last, wire);
        let before = choice_chunks(shorter, wire);
        let all = choice_chunks(frames, wire);
        if last.index == wire {
            assert(all =~= before.push(last));
            assert(all.drop_last() =~= before);
        } else {
            assert(all =~= before);
        }
        assert(answer_text(all) =~= Seq::empty());
        assert(reasoning_text(all) =~= Seq::empty());
    } else {
        assert(choice_chunks(frames, wire) =~= Seq::empty());
        assert(answer_text(choice_chunks(frames, wire)) =~= Seq::empty());
        assert(reasoning_text(choice_chunks(frames, wire)) =~= Seq::empty());
    }
}

proof fn lemma_body_keeps_text<P>(stream: StreamView<P>, arrivals: Seq<Arrival<P>>, wire: u32)
    ensures
        answer_text(choice_chunks(body_frames(stream, arrivals), wire)) == arrived_answer(
            arrivals,
            wire,
        ),
        reasoning_text(choice_chunks(body_frames(stream, arrivals), wire)) == arrived_reasoning(
            arrivals,
            wire,
        ),
    decreases arrivals.len(),
{
    if arrivals.len() == 0 {
        let none = choice_chunks(body_frames(stream, arrivals), wire);
        assert(answer_text(none) =~= Seq::empty());
        assert(reasoning_text(none) =~= Seq::empty());
    } else {
        let last = arrivals.last();
        let before = body_frames(stream, arrivals.drop_last());
        let added = arrived_frames(stream, last);
        lemma_body_keeps_text(stream, arrivals.drop_last(), wire);
        lemma_choice_chunks_append(before, added, wire);
        let own = choice_chunks(added, wire);
        lemma_texts_append(choice_chunks(before, wire), own);
        match arrived_output(last) {
            Some(output) => {
                let want = stream.want_logprobs;
                let chunks = step_chunks(last.index, output, last.split, want);
                law_finish_rides_the_last_chunk(last.index, output, last.split, want);
                lemma_choice_chunks_of_one(stream, chunks, wire_index(last.index), wire);
                law_step_keeps_text(last.index, output, last.split, want);
            },
            None => {
                assert(choice_chunks(Seq::<RunFrame<P>>::empty(), wire) =~= Seq::empty());
                if added.len() > 0 {
                    assert(added.drop_last() =~= Seq::empty());
                }
                assert(own =~= Seq::empty());
            },
        }
        if own.len() == 0 {
            assert(answer_text(own) =~= Seq::empty());
            assert(reasoning_text(own) =~= Seq::empty());
        }
        assert(answer_text(choice_chunks(body_frames(stream, arrivals), wire)) =~= arrived_answer(
            arrivals,
            wire,
        ));
        assert(reasoning_text(choice_chunks(body_frames(stream, arrivals), wire))
            =~= arrived_reasoning(arrivals, wire));
    }
}

/// However the choices alternate, the frames of a whole stream bring each choice the answer
/// and the reasoning of its own outputs, whole and in order, and nothing of another's.
pub proof fn law_every_choice_keeps_its_text<P>(
    stream: StreamView<P>,
    indices: Seq<usize>,
    arrivals: Seq<Arrival<P>>,
    wire: u32,
)
    ensures
        ({
            let chunks = choice_chunks(run_frames(stream, indices, arrivals), wire);
            &&& answer_text(chunks) == arrived_answer(arrivals, wire)
            &&& reasoning_text(chunks) == arrived_reasoning(arrivals, wire)
        }),
{
    let opening = opening_frames(stream, indices);
    let body = body_frames(stream, arrivals);
    let closing = closing_frames(stream, run_outputs(arrivals));
    let end = seq![RunFrame::<P>::Done];
    lemma_choice_chunks_append(opening, body, wire);
    lemma_choice_chunks_append(opening + body, closing, wire);
    lemma_choice_chunks_append(opening + body + closing, end, wire);
    lemma_opening_brings_no_text(stream, indices, wire);
    lemma_body_keeps_text(stream, arrivals, wire);
    assert(choice_chunks(Seq::<RunFrame<P>>::empty(), wire) =~= Seq::empty());
    assert(end.drop_last() =~= Seq::empty());
    assert(choice_chunks(end, wire) =~= Seq::empty());
    if closing.len() > 0 {
        assert(closing.drop_last() =~= Seq::empty());
        assert(of_choice(Seq::<ChunkView<P>>::empty(), wire) =~= Seq::empty());
    }
    assert(choice_chunks(closing, wire) =~= Seq::empty());
    let start = choice_chunks(opening, wire);
    let middle = choice_chunks(body, wire);
    lemma_texts_append(start, middle);
    assert(choice_chunks(run_frames(stream, indices, arrivals), wire) =~= start + middle);
    assert(answer_text(start + middle) =~= arrived_answer(arrivals, wire));
    assert(reasoning_text(start + middle) =~= arrived_reasoning(arrivals, wire));
}

/// The text that arrivals bring for a choice, as it was generated.
pub open spec fn arrived_text<P>(arrivals: Seq<Arrival<P>>, wire: u32) -> Seq<char>
    decreases arrivals.len(),
{
    if arrivals.len() == 0 {
        Seq::empty()
    } else {
        let last = arrivals.last();
        let before = arrived_text(arrivals.drop_last(), wire);
        match arrived_output(last) {
            Some(output) => if wire_index(last.index) == wire {
                before + output.text@
            } else {
                before
            },
            None => before,
        }
    }
}

/// Without a reasoning splitter the answer that a choice gets is the text of its outputs,
/// and it gets no reasoning.
pub proof fn law_answers_are_the_texts<P>(arrivals: Seq<Arrival<P>>, wire: u32)
    requires
        forall|i: int| 0 <= i < arrivals.len() ==> (#[trigger] arrivals[i]).split is None,
    ensures
        arrived_answer(arrivals, wire) == arrived_text(arrivals, wire),
        arrived_reasoning(arrivals, wire) == Seq::<char>::empty(),
    decreases arrivals.len(),
{
    if arrivals.len() > 0 {
        law_answers_are_the_texts(arrivals.drop_last(), wire);
        assert(arrived_reasoning(arrivals, wire) =~= Seq::empty());
    }
}

} // verus!
