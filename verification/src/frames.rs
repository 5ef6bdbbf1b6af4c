//! The text frames of a streamed response.
use crate::json::{
    at_path, child, insert_if_absent, is_pointer, json, json_text, law_path_leads_to_replacement,
    law_path_replaced_by_itself, lemma_item_position, null_value, opens_as_object, pointer_text,
    value_text, with_child, with_path, Json,
};
use crate::text::{digit, numeral};
use serde_json::Value;
use vstd::prelude::*;

verus! {

/// The frame that ends a stream.
pub const DONE_FRAME: &'static str = "[DONE]";

/// A chunk as `dynamo_protocols` has it, carried as an opaque value.
#[verifier::external_type_specification]
#[verifier::external_body]
pub struct ExChunkResponse(dynamo_protocols::types::CreateChatCompletionStreamResponse);

/// What a chunk serializes to, where it serializes.
pub uninterp spec fn chunk_json(
    response: dynamo_protocols::types::CreateChatCompletionStreamResponse,
) -> Option<Json>;

/// `serde_json::to_value` gives the JSON form of a chunk, which is an object, or fails.
#[verifier::external_body]
fn chunk_value(response: dynamo_protocols::types::CreateChatCompletionStreamResponse) -> (r: Option<
    Value,
>)
    ensures
        match r {
            Some(value) => chunk_json(response) == Some(json(value)) && json(value) is Object,
            None => chunk_json(response) is None,
        },
{
    serde_json::to_value(response).ok()
}

/// Where the delta of the first choice stands in a chunk.
pub open spec fn delta_path() -> Seq<Seq<char>> {
    seq!["choices"@, "0"@, "delta"@]
}

/// A delta in which `reasoning_content` is present, as null where it was absent.
pub open spec fn with_reasoning_field(delta: Json) -> Json {
    match delta {
        Json::Object(entries) => if entries.contains_key("reasoning_content"@) {
            delta
        } else {
            Json::Object(entries.insert("reasoning_content"@, Json::Null))
        },
        _ => delta,
    }
}

/// A chunk in which the first choice's delta has `reasoning_content`.
pub open spec fn with_reasoning_column(response: Json) -> Json {
    match at_path(response, delta_path()) {
        Some(delta) => with_path(response, delta_path(), with_reasoning_field(delta)),
        None => response,
    }
}

proof fn lemma_delta_pointer()
    ensures
        is_pointer("/choices/0/delta"@, delta_path()),
{
    let path = delta_path();
    reveal_strlit("/choices/0/delta");
    reveal_strlit("choices");
    reveal_strlit("0");
    reveal_strlit("delta");
    let tail = path.drop_first();
    let end = tail.drop_first();
    assert(end.drop_first() =~= Seq::empty());
    assert(pointer_text(end.drop_first()) =~= Seq::empty());
    assert(pointer_text(end) =~= seq!['/'] + "delta"@);
    assert(pointer_text(tail) =~= seq!['/'] + "0"@ + seq!['/'] + "delta"@);
    assert(pointer_text(path) =~= "/choices/0/delta"@);
}

/// Puts `reasoning_content` into the first choice's delta of a chunk, as null where the
/// delta lacks it.
pub fn fill_reasoning_column(response: &mut Value)
    ensures
        json(*final(response)) == with_reasoning_column(json(*old(response))),
{
    proof {
        lemma_delta_pointer();
    }
    match response.pointer_mut("/choices/0/delta") {
        Some(delta) => {
            match delta.as_object_mut() {
                Some(fields) => {
                    insert_if_absent(fields, "reasoning_content".to_owned(), null_value());
                },
                None => {},
            }
        },
        None => {},
    }
}

/// The text is that of a chunk with this content.
pub open spec fn is_chunk_text(text: Seq<char>, content: Json) -> bool {
    &&& opens_as_object(text)
    &&& exists|value: Value|
        json(value) == with_reasoning_column(content) && text == #[trigger] json_text(value)
}

/// The text of a chunk: its JSON form, with `reasoning_content` in the first choice's
/// delta. `None` comes back where the chunk does not serialize.
pub fn serialize_chat_stream_response(
    response: dynamo_protocols::types::CreateChatCompletionStreamResponse,
) -> (r: Option<String>)
    ensures
        match chunk_json(response) {
            Some(content) => r matches Some(text) && is_chunk_text(text@, content),
            None => r is None,
        },
{
    let mut value = match chunk_value(response) {
        Some(value) => value,
        None => {
            return None;
        },
    };
    fill_reasoning_column(&mut value);
    Some(value_text(&value))
}

/// An item of a stream of chunks: a chunk, an error, or neither.
pub struct StreamItem {
    pub data: Option<dynamo_protocols::types::CreateChatCompletionStreamResponse>,
    pub error: Option<String>,
}

/// What a stream item, or the end of the stream, becomes on the wire.
#[derive(Debug, Clone, PartialEq)]
pub enum Frame {
    Text(String),
    Unserializable,
    Skipped,
    Last(String),
}

/// The frame is that of a stream item; `None` stands for the end of the stream.
pub open spec fn is_frame(frame: Frame, item: Option<StreamItem>) -> bool {
    match item {
        Some(item) => match item.data {
            Some(response) => match chunk_json(response) {
                Some(content) => frame matches Frame::Text(text) && is_chunk_text(text@, content),
                None => frame is Unserializable,
            },
            None => match item.error {
                Some(message) => frame == Frame::Text(message),
                None => frame is Skipped,
            },
        },
        None => frame matches Frame::Last(text) && text@ == DONE_FRAME@,
    }
}

/// The frame of a stream item: its chunk where it has one, else its error, else none. The
/// end of the stream, `None`, has a frame of its own.
pub fn stream_frame(item: Option<StreamItem>) -> (r: Frame)
    ensures
        is_frame(r, item),
{
    let item = match item {
        Some(item) => item,
        None => {
            return Frame::Last(DONE_FRAME.to_owned());
        },
    };
    match item.data {
        Some(response) => match serialize_chat_stream_response(response) {
            Some(text) => Frame::Text(text),
            None => Frame::Unserializable,
        },
        None => match item.error {
            Some(message) => Frame::Text(message),
            None => Frame::Skipped,
        },
    }
}

/// The texts that frames send, in their order.
pub open spec fn sent_texts(frames: Seq<Frame>) -> Seq<Seq<char>>
    decreases frames.len(),
{
    if frames.len() == 0 {
        Seq::empty()
    } else {
        let before = sent_texts(frames.drop_last());
        match frames.last() {
            Frame::Text(text) => before.push(text@),
            Frame::Last(text) => before.push(text@),
            _ => before,
        }
    }
}

/// These are the frames of a stream that was read to its end.
pub open spec fn is_whole_stream(frames: Seq<Frame>, items: Seq<StreamItem>) -> bool {
    &&& frames.len() == items.len() + 1
    &&& forall|i: int| 0 <= i < items.len() ==> is_frame(#[trigger] frames[i], Some(items[i]))
    &&& is_frame(frames.last(), None)
}

proof fn lemma_items_send_objects(frames: Seq<Frame>, items: Seq<StreamItem>)
    requires
        frames.len() == items.len(),
        forall|i: int| 0 <= i < items.len() ==> is_frame(#[trigger] frames[i], Some(items[i])),
        forall|i: int|
            0 <= i < items.len() && (#[trigger] items[i]).error is Some ==> opens_as_object(
                items[i].error->Some_0@,
            ),
    ensures
        forall|i: int|
            0 <= i < sent_texts(frames).len() ==> opens_as_object(#[trigger] sent_texts(frames)[i]),
    decreases frames.len(),
{
    if frames.len() > 0 {
        let before = sent_texts(frames.drop_last());
        let item = items[items.len() - 1];
        lemma_items_send_objects(frames.drop_last(), items.drop_last());
        assert(is_frame(frames[frames.len() - 1], Some(item)));
        assert forall|i: int| 0 <= i < sent_texts(frames).len() implies opens_as_object(
            #[trigger] sent_texts(frames)[i],
        ) by {
            if i < before.len() {
                assert(sent_texts(frames)[i] == before[i]);
            } else {
                assert(frames.last() is Text);
                assert(sent_texts(frames)[i] == frames.last()->Text_0@);
            }
        }
    }
}

/// A stream that was read to its end, in which error texts open like JSON objects as those
/// of chunks do, sends the mark of the end last and nowhere before; every text before it
/// opens like an object.
pub proof fn law_done_is_sent_last(frames: Seq<Frame>, items: Seq<StreamItem>)
    requires
        is_whole_stream(frames, items),
        forall|i: int|
            0 <= i < items.len() && (#[trigger] items[i]).error is Some ==> opens_as_object(
                items[i].error->Some_0@,
            ),
    ensures
        ({
            let sent = sent_texts(frames);
            &&& sent.len() > 0
            &&& sent.last() == DONE_FRAME@
            &&& forall|i: int|
                0 <= i < sent.len() - 1 ==> opens_as_object(#[trigger] sent[i]) && sent[i]
                    != DONE_FRAME@
        }),
{
    let body = frames.drop_last();
    lemma_items_send_objects(body, items);
    reveal_strlit("[DONE]");
    assert(!opens_as_object(DONE_FRAME@));
    let sent = sent_texts(frames);
    assert forall|i: int| 0 <= i < sent.len() - 1 implies opens_as_object(#[trigger] sent[i]) by {
        assert(sent[i] == sent_texts(body)[i]);
    }
}

/// Where the first choice of a chunk has a delta, that delta has `reasoning_content`
/// afterwards: as it was where it was there, else null. Its other fields stay.
pub proof fn law_delta_has_reasoning(response: Json, delta: Map<Seq<char>, Json>)
    requires
        at_path(response, delta_path()) == Some(Json::Object(delta)),
    ensures
        ({
            let filled = at_path(with_reasoning_column(response), delta_path());
            &&& filled matches Some(Json::Object(entries))
            &&& entries.contains_key("reasoning_content"@)
            &&& entries["reasoning_content"@] == if delta.contains_key("reasoning_content"@) {
                delta["reasoning_content"@]
            } else {
                Json::Null
            }
            &&& forall|field: Seq<char>| field != "reasoning_content"@ ==> {
                &&& #[trigger] entries.contains_key(field) == delta.contains_key(field)
                &&& delta.contains_key(field) ==> entries[field] == delta[field]
            }
        }),
{
    law_path_leads_to_replacement(
        response,
        delta_path(),
        with_reasoning_field(Json::Object(delta)),
    );
}

/// Outside the choices a chunk stays as it is.
pub proof fn law_other_fields_stay(response: Json, field: Seq<char>)
    requires
        field != "choices"@,
    ensures
        child(with_reasoning_column(response), field) == child(response, field),
{
    let path = delta_path();
    assert(path[0] == "choices"@);
    match response {
        Json::Array(items) => {
            lemma_name_is_no_numeral(items);
        },
        _ => {},
    }
}

proof fn lemma_name_is_no_numeral(items: Seq<Json>)
    ensures
        child(Json::Array(items), "choices"@) is None,
{
    if child(Json::Array(items), "choices"@) is Some {
        let i = choose|i: nat| i < items.len() && "choices"@ == numeral(i);
        reveal_strlit("choices");
        assert("choices"@.last() == 's');
        assert(numeral(i).last() == digit(i % 10));
    }
}

/// Filling the column a second time changes nothing.
pub proof fn law_filling_is_idempotent(response: Json)
    ensures
        with_reasoning_column(with_reasoning_column(response)) == with_reasoning_column(response),
{
    match at_path(response, delta_path()) {
        Some(delta) => {
            let filled = with_reasoning_column(response);
            law_path_leads_to_replacement(response, delta_path(), with_reasoning_field(delta));
            law_path_replaced_by_itself(filled, delta_path());
        },
        None => {},
    }
}

/// The first of some choices: the first of a list, or what stands under `0` in an object.
pub open spec fn first_choice(choices: Json) -> Option<Json> {
    match choices {
        Json::Array(items) => if items.len() > 0 {
            Some(items[0])
        } else {
            None
        },
        Json::Object(entries) => if entries.contains_key("0"@) {
            Some(entries["0"@])
        } else {
            None
        },
        _ => None,
    }
}

/// The fields of the delta of a chunk's first choice, where it has one that is an object.
pub open spec fn first_delta(response: Json) -> Option<Map<Seq<char>, Json>> {
    if response is Object && response->Object_0.contains_key("choices"@) && first_choice(
        response->Object_0["choices"@],
    ) is Some {
        let choice = first_choice(response->Object_0["choices"@])->Some_0;
        if choice is Object && choice->Object_0.contains_key("delta"@)
            && choice->Object_0["delta"@] is Object {
            Some(choice->Object_0["delta"@]->Object_0)
        } else {
            None
        }
    } else {
        None
    }
}

proof fn lemma_numeral_zero(items: Seq<Json>)
    ensures
        "0"@ == numeral(0),
        items.len() > 0 ==> child(Json::Array(items), "0"@) == Some(items[0]),
        items.len() > 0 ==> forall|item: Json| #[trigger]
            with_child(Json::Array(items), "0"@, item) == Json::Array(items.update(0, item)),
        items.len() == 0 ==> child(Json::Array(items), "0"@) is None,
{
    reveal_strlit("0");
    assert("0"@ =~= numeral(0));
    if items.len() > 0 {
        assert(0nat < items.len() && "0"@ == numeral(0));
        lemma_item_position(items, "0"@, 0);
    }
}

proof fn lemma_delta_steps(response: Json)
    ensures
        at_path(response, delta_path()) == match child(response, "choices"@) {
            Some(choices) => match child(choices, "0"@) {
                Some(choice) => child(choice, "delta"@),
                None => None,
            },
            None => None,
        },
        forall|delta: Json|
            at_path(response, delta_path()) is Some ==> #[trigger] with_path(
                response,
                delta_path(),
                delta,
            ) == {
                let choices = child(response, "choices"@)->Some_0;
                let choice = child(choices, "0"@)->Some_0;
                with_child(
                    response,
                    "choices"@,
                    with_child(choices, "0"@, with_child(choice, "delta"@, delta)),
                )
            },
{
    let path = delta_path();
    let tail = path.drop_first();
    let end = tail.drop_first();
    assert(path[0] == "choices"@);
    assert(tail[0] == "0"@);
    assert(end[0] == "delta"@);
    assert(end.drop_first().len() == 0);
    reveal_with_fuel(at_path, 4);
    reveal_with_fuel(with_path, 4);
}

/// The first choice's delta of a chunk gets `reasoning_content` as null where it lacks it,
/// and stays as it is where it has it; the rest of the delta, of the choice, of the other
/// choices and of the chunk stays.
pub proof fn law_the_first_delta_is_filled(response: &mut Value)
    requires
        call_ensures(fill_reasoning_column, (response,), ()),
        first_delta(json(*old(response))) is Some,
        json(*old(response))->Object_0["choices"@] is Array,
    ensures
        ({
            let chunk = json(*old(response))->Object_0;
            let choices = chunk["choices"@]->Array_0;
            let choice = choices[0]->Object_0;
            let delta = choice["delta"@]->Object_0;
            let filled = if delta.contains_key("reasoning_content"@) {
                delta
            } else {
                delta.insert("reasoning_content"@, Json::Null)
            };
            json(*final(response)) == Json::Object(
                chunk.insert(
                    "choices"@,
                    Json::Array(
                        choices.update(
                            0,
                            Json::Object(choice.insert("delta"@, Json::Object(filled))),
                        ),
                    ),
                ),
            )
        }),
{
    lemma_filled_content(json(*old(response)));
}

proof fn lemma_filled_content(before: Json)
    ensures
        first_delta(before) is Some && before->Object_0["choices"@] is Array ==> {
            let chunk = before->Object_0;
            let choices = chunk["choices"@]->Array_0;
            let choice = choices[0]->Object_0;
            let delta = choice["delta"@]->Object_0;
            let filled = if delta.contains_key("reasoning_content"@) {
                delta
            } else {
                delta.insert("reasoning_content"@, Json::Null)
            };
            with_reasoning_column(before) == Json::Object(
                chunk.insert(
                    "choices"@,
                    Json::Array(
                        choices.update(
                            0,
                            Json::Object(choice.insert("delta"@, Json::Object(filled))),
                        ),
                    ),
                ),
            )
        },
{
    if first_delta(before) is Some && before->Object_0["choices"@] is Array {
        let items = before->Object_0["choices"@]->Array_0;
        lemma_delta_steps(before);
        lemma_numeral_zero(items);
        let delta = items[0]->Object_0["delta"@];
        assert(at_path(before, delta_path()) == Some(delta));
        assert(with_path(before, delta_path(), with_reasoning_field(delta)) == with_child(
            before,
            "choices"@,
            with_child(
                Json::Array(items),
                "0"@,
                with_child(items[0], "delta"@, with_reasoning_field(delta)),
            ),
        ));
    }
}

proof fn lemma_words_are_no_numerals(items: Seq<Json>)
    ensures
        child(Json::Array(items), "choices"@) is None,
        child(Json::Array(items), "delta"@) is None,
{
    lemma_name_is_no_numeral(items);
    if child(Json::Array(items), "delta"@) is Some {
        let i = choose|i: nat| i < items.len() && "delta"@ == numeral(i);
        reveal_strlit("delta");
        assert("delta"@.last() == 'a');
        assert(numeral(i).last() == digit(i % 10));
    }
}

/// A value of which the first choice has no delta that is an object stays as it is.
pub proof fn law_other_values_are_not_filled(response: &mut Value)
    requires
        call_ensures(fill_reasoning_column, (response,), ()),
        first_delta(json(*old(response))) is None,
    ensures
        json(*final(response)) == json(*old(response)),
{
    lemma_unfilled_content(json(*old(response)));
}

proof fn lemma_unfilled_content(before: Json)
    ensures
        first_delta(before) is None ==> with_reasoning_column(before) == before,
{
    lemma_delta_steps(before);
    match at_path(before, delta_path()) {
        Some(delta) => {
            law_path_replaced_by_itself(before, delta_path());
            if before is Array {
                lemma_words_are_no_numerals(before->Array_0);
            }
            let choices = child(before, "choices"@)->Some_0;
            if choices is Array {
                lemma_numeral_zero(choices->Array_0);
            }
            let choice = child(choices, "0"@)->Some_0;
            if choice is Array {
                lemma_words_are_no_numerals(choice->Array_0);
            }
            if first_delta(before) is None {
                assert(!(delta is Object));
                assert(with_reasoning_field(delta) == delta);
            }
        },
        None => {},
    }
}

/// A chunk that serializes is sent as the text of an object, which is the chunk's content
/// with the first delta filled; one that does not is not sent. Without a chunk an error is
/// sent as it is. An item with neither is not sent, and the end of a stream is `[DONE]`.
pub proof fn law_items_are_sent(
    response: dynamo_protocols::types::CreateChatCompletionStreamResponse,
    error: Option<String>,
    message: String,
    of_chunk: Frame,
    of_error: Frame,
    of_nothing: Frame,
    of_end: Frame,
)
    requires
        call_ensures(stream_frame, (Some(StreamItem { data: Some(response), error }),), of_chunk),
        call_ensures(
            stream_frame,
            (Some(StreamItem { data: None, error: Some(message) }),),
            of_error,
        ),
        call_ensures(stream_frame, (Some(StreamItem { data: None, error: None }),), of_nothing),
        call_ensures(stream_frame, (None::<StreamItem>,), of_end),
    ensures
        chunk_json(response) is None ==> of_chunk is Unserializable,
        chunk_json(response) matches Some(content) ==> of_chunk is Text && (exists|value: Value|
            of_chunk->Text_0@ == #[trigger] json_text(value) && json(value)
                == with_reasoning_column(content)) && of_chunk->Text_0@.len() > 0
            && of_chunk->Text_0@[0] == '{',
        of_error is Text,
        of_error->Text_0@ == message@,
        of_nothing is Skipped,
        of_end is Last,
        of_end->Last_0@ == "[DONE]"@,
{
}

/// The text of a chunk is that of its frame, and there is none where it does not serialize.
pub proof fn law_chunk_texts(
    response: dynamo_protocols::types::CreateChatCompletionStreamResponse,
    r: Option<String>,
)
    requires
        call_ensures(serialize_chat_stream_response, (response,), r),
    ensures
        r is Some <==> chunk_json(response) is Some,
        r matches Some(text) ==> exists|value: Value|
            text@ == #[trigger] json_text(value) && json(value) == with_reasoning_column(
                chunk_json(response)->Some_0,
            ),
{
}

/// What filling makes of a chunk's content, field by field: it is the content itself where
/// the first choice has no delta that is an object, and else the content with that delta
/// alone changed, by a `reasoning_content` that is null where it was absent.
pub proof fn law_filled_content(content: Json)
    ensures
        first_delta(content) is None ==> with_reasoning_column(content) == content,
        first_delta(content) is Some && content->Object_0["choices"@] is Array ==> {
            let chunk = content->Object_0;
            let choices = chunk["choices"@]->Array_0;
            let choice = choices[0]->Object_0;
            let delta = first_delta(content)->Some_0;
            let filled = if delta.contains_key("reasoning_content"@) {
                delta
            } else {
                delta.insert("reasoning_content"@, Json::Null)
            };
            with_reasoning_column(content) == Json::Object(
                chunk.insert(
                    "choices"@,
                    Json::Array(
                        choices.update(
                            0,
                            Json::Object(choice.insert("delta"@, Json::Object(filled))),
                        ),
                    ),
                ),
            )
        },
{
    lemma_filled_content(content);
    lemma_unfilled_content(content);
}

} // verus!
