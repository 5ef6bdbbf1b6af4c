//! Log probabilities of a chunk in the OpenAI shape.
use crate::response::ChunkExtras;
use crate::text::{decimal, decimal_text};
use crate::wire::{
    tokens_view, tops_view, ChatChoiceLogprobs, ChatCompletionTokenLogprob, LogprobsView,
    TokenView, TopLogprobs, TopView,
};
use vstd::prelude::*;
use vstd::string::StringExecFns;
use vstd::string::StrSliceExecFns;
use vstd::utf8::encode_utf8;

verus! {

/// The text of a token: the one at hand, or a label made of its id.
pub open spec fn token_label(texts: Seq<String>, position: int, id: i64) -> Seq<char> {
    if 0 <= position < texts.len() {
        texts[position]@
    } else {
        "token_id:"@ + decimal(id as int)
    }
}

/// How many of the likeliest tokens a position has.
pub open spec fn top_len(lens: Seq<u32>, position: int) -> int {
    if 0 <= position < lens.len() {
        lens[position] as int
    } else {
        0
    }
}

/// How many of the likeliest tokens the positions before this one have together.
pub open spec fn top_offset(lens: Seq<u32>, position: int) -> int
    decreases position,
{
    if position <= 0 {
        0
    } else {
        top_offset(lens, position - 1) + top_len(lens, position - 1)
    }
}

/// The smaller of two numbers.
pub open spec fn smaller(a: int, b: int) -> int {
    if a <= b {
        a
    } else {
        b
    }
}

impl<P> ChunkExtras<P> {
    /// How many positions have both a log probability and a token id.
    pub open spec fn scored(self) -> int {
        smaller(self.out_lp_val@.len() as int, self.out_lp_idx@.len() as int)
    }

    /// The likeliest tokens of every scored position start within the columns.
    pub open spec fn well_sliced(self) -> bool {
        forall|position: int|
            0 <= position < self.scored() ==> #[trigger] top_offset(
                self.out_top_lens@,
                position,
            ) <= smaller(self.out_top_val@.len() as int, self.out_top_idx@.len() as int)
    }

    /// How many of the likeliest tokens of a position the columns hold.
    pub open spec fn held_tops(self, position: int) -> int {
        let held = smaller(self.out_top_val@.len() as int, self.out_top_idx@.len() as int)
            - top_offset(self.out_top_lens@, position);
        smaller(top_len(self.out_top_lens@, position), held)
    }

    /// The entry at `row` of the columns of likeliest tokens.
    pub open spec fn top_entry(self, row: int) -> TopView<P> {
        let token = token_label(self.out_top_txt@, row, self.out_top_idx@[row]);
        TopView { token, logprob: self.out_top_val@[row], bytes: Some(encode_utf8(token)) }
    }

    /// The entry of a scored position.
    pub open spec fn token_entry(self, position: int) -> TokenView<P> {
        let id = self.out_lp_idx@[position];
        let token = token_label(self.out_lp_txt@, position, id);
        TokenView {
            token,
            logprob: self.out_lp_val@[position],
            token_id: if 0 <= id <= u32::MAX {
                Some(id as u32)
            } else {
                None
            },
            bytes: Some(encode_utf8(token)),
            top_logprobs: Seq::new(
                self.held_tops(position) as nat,
                |k: int| self.top_entry(top_offset(self.out_top_lens@, position) + k),
            ),
        }
    }

    /// Whether the likeliest tokens of every scored position start within the columns.
    pub fn is_well_sliced(&self) -> (r: bool)
        ensures
            r == self.well_sliced(),
    {
        let mut position: usize = 0;
        let mut offset: u128 = 0;
        while position < self.out_lp_val.len() && position < self.out_lp_idx.len()
            invariant
                0 <= position <= self.scored(),
                offset == top_offset(self.out_top_lens@, position as int),
                offset <= usize::MAX + u32::MAX,
                forall|k: int|
                    0 <= k < position ==> #[trigger] top_offset(self.out_top_lens@, k) <= smaller(
                        self.out_top_val@.len() as int,
                        self.out_top_idx@.len() as int,
                    ),
            decreases self.out_lp_val.len() - position,
        {
            if offset > self.out_top_val.len() as u128 || offset > self.out_top_idx.len() as u128 {
                return false;
            }
            let step: u32 = if position < self.out_top_lens.len() {
                self.out_top_lens[position]
            } else {
                0
            };
            offset = offset + step as u128;
            position += 1;
        }
        true
    }
}

/// What `chat_logprobs` gives for a chunk.
pub open spec fn chat_logprobs_view<P>(extras: Option<ChunkExtras<P>>) -> LogprobsView<P> {
    LogprobsView {
        content: Some(
            match extras {
                Some(extras) => Seq::new(
                    extras.scored() as nat,
                    |position: int| extras.token_entry(position),
                ),
                None => Seq::empty(),
            },
        ),
        refusal: None,
    }
}

fn token_text(texts: &Vec<String>, position: usize, id: i64) -> (r: String)
    ensures
        r@ == token_label(texts@, position as int, id),
{
    if position < texts.len() {
        texts[position].clone()
    } else {
        let mut label = "token_id:".to_owned();
        label.append(decimal_text(id).as_str());
        label
    }
}

fn top_logprobs<P: Copy>(extras: &ChunkExtras<P>, position: usize, offset: usize) -> (r: Vec<
    TopLogprobs<P>,
>)
    requires
        offset == top_offset(extras.out_top_lens@, position as int),
        offset <= extras.out_top_val@.len(),
        offset <= extras.out_top_idx@.len(),
    ensures
        tops_view(r@) == extras.token_entry(position as int).top_logprobs,
{
    let wanted: usize = if position < extras.out_top_lens.len() {
        extras.out_top_lens[position] as usize
    } else {
        0
    };
    let mut tops: Vec<TopLogprobs<P>> = Vec::new();
    let mut k: usize = 0;
    while k < wanted && k < extras.out_top_val.len() - offset && k < extras.out_top_idx.len()
        - offset
        invariant
            offset <= extras.out_top_val@.len(),
            offset <= extras.out_top_idx@.len(),
            offset == top_offset(extras.out_top_lens@, position as int),
            wanted == top_len(extras.out_top_lens@, position as int),
            0 <= k <= extras.held_tops(position as int),
            tops.len() == k,
            forall|j: int| 0 <= j < k ==> #[trigger] tops[j]@ == extras.top_entry(offset + j),
        decreases wanted - k,
    {
        let row = offset + k;
        let token = token_text(&extras.out_top_txt, row, extras.out_top_idx[row]);
        let bytes = token.as_str().as_bytes_vec();
        tops.push(TopLogprobs { token, logprob: extras.out_top_val[row], bytes: Some(bytes) });
        k += 1;
    }
    assert(tops_view(tops@) =~= extras.token_entry(position as int).top_logprobs);
    tops
}

/// The log probabilities of a chunk: one entry per position that has both a log
/// probability and a token id.
pub fn chat_logprobs<P: Copy>(extras: Option<&ChunkExtras<P>>) -> (r: ChatChoiceLogprobs<P>)
    requires
        extras matches Some(extras) ==> extras.well_sliced(),
    ensures
        r@ == chat_logprobs_view(
            match extras {
                Some(extras) => Some(*extras),
                None => None,
            },
        ),
{
    let mut content: Vec<ChatCompletionTokenLogprob<P>> = Vec::new();
    let extras = match extras {
        Some(extras) => extras,
        None => {
            assert(tokens_view(content@) =~= Seq::empty());
            return ChatChoiceLogprobs { content: Some(content), refusal: None };
        },
    };
    let mut offset: usize = 0;
    let mut position: usize = 0;
    while position < extras.out_lp_val.len() && position < extras.out_lp_idx.len()
        invariant
            extras.well_sliced(),
            0 <= position <= extras.scored(),
            offset == smaller(
                top_offset(extras.out_top_lens@, position as int),
                usize::MAX as int,
            ),
            content.len() == position,
            forall|j: int|
                0 <= j < position ==> #[trigger] content[j]@ == extras.token_entry(j),
        decreases extras.out_lp_val.len() - position,
    {
        assert(top_offset(extras.out_top_lens@, position as int) <= smaller(
            extras.out_top_val@.len() as int,
            extras.out_top_idx@.len() as int,
        ));
        assert(extras.out_top_val@.len() == extras.out_top_val.len());
        let id = extras.out_lp_idx[position];
        let token = token_text(&extras.out_lp_txt, position, id);
        let top_logprobs = top_logprobs(extras, position, offset);
        let step: usize = if position < extras.out_top_lens.len() {
            extras.out_top_lens[position] as usize
        } else {
            0
        };
        offset = offset.saturating_add(step);
        let bytes = token.as_str().as_bytes_vec();
        let token_id = if 0 <= id && id <= 0xffff_ffff {
            Some(id as u32)
        } else {
            None
        };
        content.push(
            ChatCompletionTokenLogprob {
                token,
                logprob: extras.out_lp_val[position],
                token_id,
                bytes: Some(bytes),
                top_logprobs,
            },
        );
        position += 1;
    }
    assert(tokens_view(content@) =~= Seq::new(
        extras.scored() as nat,
        |position: int| extras.token_entry(position),
    ));
    ChatChoiceLogprobs { content: Some(content), refusal: None }
}

proof fn lemma_top_offset_grows(lens: Seq<u32>, earlier: int, later: int)
    requires
        0 <= earlier <= later,
    ensures
        0 <= top_offset(lens, earlier) <= top_offset(lens, later),
    decreases later,
{
    if earlier < later {
        lemma_top_offset_grows(lens, earlier, later - 1);
    } else if 0 < later {
        lemma_top_offset_grows(lens, earlier - 1, later - 1);
    }
}

/// Where the lengths account for the columns of likeliest tokens, row for row, the
/// chunk can be shaped, and every position gets as many entries as its length says,
/// starting where the position before it ended.
pub proof fn law_lengths_share_out_the_columns<P>(extras: ChunkExtras<P>, position: int)
    requires
        extras.out_top_val@.len() == extras.out_top_idx@.len(),
        extras.out_top_val@.len() == top_offset(extras.out_top_lens@, extras.scored()),
        0 <= position < extras.scored(),
    ensures
        extras.well_sliced(),
        extras.token_entry(position).top_logprobs.len() == top_len(extras.out_top_lens@, position),
        top_offset(extras.out_top_lens@, position) + extras.token_entry(position).top_logprobs.len()
            == top_offset(extras.out_top_lens@, position + 1),
{
    let lens = extras.out_top_lens@;
    assert forall|k: int| 0 <= k < extras.scored() implies #[trigger] top_offset(lens, k)
        <= smaller(extras.out_top_val@.len() as int, extras.out_top_idx@.len() as int) by {
        lemma_top_offset_grows(lens, k, extras.scored());
    }
    lemma_top_offset_grows(lens, position + 1, extras.scored());
    lemma_top_offset_grows(lens, 0, position);
}

/// The likeliest tokens of a position start behind those of the positions before it: at the
/// first row for the first position, and further on by the length of each position passed.
pub proof fn law_rows_follow_the_lengths(lens: Seq<u32>, position: int)
    requires
        0 <= position,
    ensures
        top_offset(lens, 0) == 0,
        position < lens.len() ==> top_offset(lens, position + 1) == top_offset(lens, position)
            + lens[position],
        position >= lens.len() ==> top_offset(lens, position + 1) == top_offset(lens, position),
{
}

/// A chunk can be shaped where the rows of every position that has both a log probability
/// and a token id start within both columns of likeliest tokens, and only there.
pub proof fn law_shapeable_chunks<P>(extras: ChunkExtras<P>, r: bool)
    requires
        call_ensures(ChunkExtras::<P>::is_well_sliced, (&extras,), r),
    ensures
        r <==> forall|position: int|
            0 <= position < extras.out_lp_val@.len() && position < extras.out_lp_idx@.len()
                ==> #[trigger] top_offset(extras.out_top_lens@, position)
                <= extras.out_top_val@.len() && top_offset(extras.out_top_lens@, position)
                <= extras.out_top_idx@.len(),
{
    let plain = forall|position: int|
        0 <= position < extras.out_lp_val@.len() && position < extras.out_lp_idx@.len()
            ==> #[trigger] top_offset(extras.out_top_lens@, position) <= extras.out_top_val@.len()
            && top_offset(extras.out_top_lens@, position) <= extras.out_top_idx@.len();
    if plain {
        assert(extras.well_sliced());
    }
    if extras.well_sliced() {
        assert forall|position: int|
            0 <= position < extras.out_lp_val@.len() && position
                < extras.out_lp_idx@.len() implies #[trigger] top_offset(
            extras.out_top_lens@,
            position,
        ) <= extras.out_top_val@.len() && top_offset(extras.out_top_lens@, position)
            <= extras.out_top_idx@.len() by {
            assert(position < extras.scored());
        }
    }
}

/// Without extras there is an empty list. With them there is one entry per position that
/// has both a log probability and a token id, and the entry of a position carries the
/// columns of that position: its log probability, its id where the id fits, its text or
/// else its id as a label, and the bytes of that text.
pub proof fn law_entries_carry_their_own_columns<P: Copy>(
    extras: Option<&ChunkExtras<P>>,
    r: ChatChoiceLogprobs<P>,
)
    requires
        call_ensures(chat_logprobs::<P>, (extras,), r),
    ensures
        r.refusal is None,
        r.content is Some,
        extras is None ==> r.content->Some_0@.len() == 0,
        extras matches Some(columns) ==> {
            let content = r.content->Some_0@;
            &&& content.len() == columns.out_lp_val@.len() || content.len()
                == columns.out_lp_idx@.len()
            &&& content.len() <= columns.out_lp_val@.len()
            &&& content.len() <= columns.out_lp_idx@.len()
            &&& forall|i: int|
                0 <= i < content.len() ==> {
                    let id = columns.out_lp_idx@[i];
                    let entry = #[trigger] content[i];
                    &&& entry.logprob == columns.out_lp_val@[i]
                    &&& 0 <= id <= u32::MAX ==> entry.token_id == Some(id as u32)
                    &&& id < 0 || id > u32::MAX ==> entry.token_id is None
                    &&& i < columns.out_lp_txt@.len() ==> entry.token@ == columns.out_lp_txt@[i]@
                    &&& i >= columns.out_lp_txt@.len() ==> entry.token@ == "token_id:"@ + decimal(
                        id as int,
                    )
                    &&& entry.bytes is Some
                    &&& entry.bytes->Some_0@ == encode_utf8(entry.token@)
                }
        },
{
    match extras {
        Some(columns) => {
            let content = r.content->Some_0@;
            assert(tokens_view(content).len() == columns.scored());
            assert forall|i: int| 0 <= i < content.len() implies (#[trigger] content[i])@
                == columns.token_entry(i) by {
                assert(tokens_view(content)[i] == content[i]@);
            }
        },
        None => {
            assert(tokens_view(r.content->Some_0@).len() == 0);
        },
    }
}

/// The likeliest tokens of a position are the rows from where the position starts, as many
/// as its length says or as the columns hold, and each carries the columns of its own row.
pub proof fn law_likeliest_tokens_carry_their_own_rows<P: Copy>(
    columns: &ChunkExtras<P>,
    r: ChatChoiceLogprobs<P>,
    position: int,
)
    requires
        columns.well_sliced(),
        call_ensures(chat_logprobs::<P>, (Some(columns),), r),
        0 <= position < r.content->Some_0@.len(),
    ensures
        ({
            let start = top_offset(columns.out_top_lens@, position);
            let tops = r.content->Some_0@[position].top_logprobs@;
            let wanted = if position < columns.out_top_lens@.len() {
                columns.out_top_lens@[position] as int
            } else {
                0
            };
            &&& tops.len() <= wanted
            &&& start + tops.len() <= columns.out_top_val@.len()
            &&& start + tops.len() <= columns.out_top_idx@.len()
            &&& tops.len() == wanted || start + tops.len() == columns.out_top_val@.len() || start
                + tops.len() == columns.out_top_idx@.len()
            &&& forall|k: int|
                0 <= k < tops.len() ==> {
                    let row = start + k;
                    let top = #[trigger] tops[k];
                    &&& top.logprob == columns.out_top_val@[row]
                    &&& row < columns.out_top_txt@.len() ==> top.token@
                        == columns.out_top_txt@[row]@
                    &&& row >= columns.out_top_txt@.len() ==> top.token@ == "token_id:"@ + decimal(
                        columns.out_top_idx@[row] as int,
                    )
                    &&& top.bytes is Some
                    &&& top.bytes->Some_0@ == encode_utf8(top.token@)
                }
        }),
{
    let content = r.content->Some_0@;
    assert(tokens_view(content).len() == columns.scored());
    assert(tokens_view(content)[position] == content[position]@);
    let tops = content[position].top_logprobs@;
    let entry = columns.token_entry(position);
    assert(tops_view(tops) == entry.top_logprobs);
    assert(tops_view(tops).len() == tops.len());
    let start = top_offset(columns.out_top_lens@, position);
    lemma_top_offset_grows(columns.out_top_lens@, 0, position);
    assert(start <= columns.out_top_val@.len() && start <= columns.out_top_idx@.len());
    assert forall|k: int| 0 <= k < tops.len() implies (#[trigger] tops[k])@ == columns.top_entry(
        start + k,
    ) by {
        assert(tops_view(tops)[k] == tops[k]@);
    }
}

} // verus!
