//! What a streamed answer comes to, in terms of all that the stream said.
use crate::anthropic_stream::{
    after_event, after_events, anthropic_done, closed_calls, event_tells, has_call, in_order,
    lemma_place, no_anthropic_answer, place_for, AnthropicAnswerView, AnthropicEventView,
    OpenCallView,
};
use crate::json::{parsed, JsonTree};
use crate::models::{EventView, PartView, ToolCallView};
use crate::openai_stream::{
    after_break, after_chunk, after_chunks, after_payload, after_piece, after_pieces, done_event,
    end_events, finished_call, finished_calls, no_answer, payload_events, second_try, with_room,
    worth_asking_again, AccumView, AnswerView, CallDeltaView, ChunkView, WholeReply,
};
use crate::reply::{
    choices_of, content_parts, content_texts, ChoiceView, OpenAiChatResponse, OpenAiUsage,
};
use vstd::prelude::*;

verus! {

/// Whether a tool call is this one, with this text for its arguments: they are
/// what the text holds, and where it is no JSON, the call tells so.
pub open spec fn is_call(
    call: ToolCallView,
    id: Seq<char>,
    name: Seq<char>,
    text: Seq<char>,
) -> bool {
    &&& call.id == id
    &&& call.name == name
    &&& text.len() > 0 ==> call.arguments_raw == Some(text)
    &&& text.len() == 0 ==> call.arguments_raw is None
    &&& match parsed(text) {
        Ok(tree) => call.arguments == tree && call.arguments_parse_error is None,
        Err(message) => call.arguments == JsonTree::Null && call.arguments_parse_error == Some(
            message,
        ),
    }
}

// ---------------------------------------------------------------------------
// The OpenAI API

/// What chunks say, one behind the other.
pub open spec fn chunks_say(chunks: Seq<ChunkView>) -> Seq<char>
    decreases chunks.len(),
{
    if chunks.len() == 0 {
        Seq::empty()
    } else {
        let before = chunks_say(chunks.drop_last());
        let choices = chunks.last().choices;
        if choices.len() > 0 && choices[0].content is Some {
            before + choices[0].content->0
        } else {
            before
        }
    }
}

/// The pieces of tool calls in chunks, one behind the other.
pub open spec fn pieces_in(chunks: Seq<ChunkView>) -> Seq<CallDeltaView>
    decreases chunks.len(),
{
    if chunks.len() == 0 {
        Seq::empty()
    } else {
        let before = pieces_in(chunks.drop_last());
        let choices = chunks.last().choices;
        if choices.len() > 0 {
            before + choices[0].tool_calls
        } else {
            before
        }
    }
}

/// The text for the arguments in the pieces of one call.
pub open spec fn text_for(pieces: Seq<CallDeltaView>, k: int) -> Seq<char>
    decreases pieces.len(),
{
    if pieces.len() == 0 {
        Seq::empty()
    } else {
        let before = text_for(pieces.drop_last(), k);
        if pieces.last().index == k && pieces.last().arguments is Some {
            before + pieces.last().arguments->0
        } else {
            before
        }
    }
}

/// Whether a piece gives an id.
pub open spec fn gives_id(piece: CallDeltaView, k: int) -> bool {
    piece.index == k && piece.id is Some && piece.id->0.len() > 0
}

/// Whether a piece gives a name.
pub open spec fn gives_name(piece: CallDeltaView, k: int) -> bool {
    piece.index == k && piece.name is Some && piece.name->0.len() > 0
}

/// Whether the piece at `p` is the last one that gives an id to the call.
pub open spec fn last_id_at(pieces: Seq<CallDeltaView>, k: int, p: int) -> bool {
    &&& 0 <= p < pieces.len()
    &&& gives_id(pieces[p], k)
    &&& forall|q: int| p < q < pieces.len() ==> !gives_id(#[trigger] pieces[q], k)
}

/// Whether the piece at `p` is the last one that gives a name to the call.
pub open spec fn last_name_at(pieces: Seq<CallDeltaView>, k: int, p: int) -> bool {
    &&& 0 <= p < pieces.len()
    &&& gives_name(pieces[p], k)
    &&& forall|q: int| p < q < pieces.len() ==> !gives_name(#[trigger] pieces[q], k)
}

proof fn lemma_pieces_behind(
    calls: Seq<AccumView>,
    a: Seq<CallDeltaView>,
    b: Seq<CallDeltaView>,
)
    ensures
        after_pieces(calls, a + b) == after_pieces(after_pieces(calls, a), b),
    decreases b.len(),
{
    if b.len() == 0 {
        assert(a + b =~= a);
    } else {
        assert((a + b).drop_last() =~= a + b.drop_last());
        lemma_pieces_behind(calls, a, b.drop_last());
    }
}

proof fn lemma_chunks(chunks: Seq<ChunkView>)
    ensures
        after_chunks(no_answer(), chunks).text == chunks_say(chunks),
        after_chunks(no_answer(), chunks).calls == after_pieces(Seq::empty(), pieces_in(chunks)),
        !after_chunks(no_answer(), chunks).done,
    decreases chunks.len(),
{
    if chunks.len() > 0 {
        let front = chunks.drop_last();
        lemma_chunks(front);
        let before = after_chunks(no_answer(), front);
        let choices = chunks.last().choices;
        if choices.len() > 0 {
            lemma_pieces_behind(Seq::empty(), pieces_in(front), choices[0].tool_calls);
            assert(before.text + Seq::<char>::empty() =~= before.text);
        }
    }
}

proof fn lemma_piece(calls: Seq<AccumView>, piece: CallDeltaView, k: int)
    requires
        0 <= k,
    ensures
        ({
            let after = after_piece(calls, piece);
            let was = if k < calls.len() {
                calls[k]
            } else {
                AccumView { id: Seq::empty(), name: Seq::empty(), arguments: Seq::empty() }
            };
            &&& after.len() == (if piece.index < calls.len() {
                calls.len()
            } else {
                (piece.index + 1) as nat
            })
            &&& k < after.len() && piece.index != k ==> after[k] == was
            &&& piece.index == k ==> {
                &&& k < after.len()
                &&& after[k].id == (if gives_id(piece, k) {
                    piece.id->0
                } else {
                    was.id
                })
                &&& after[k].name == (if gives_name(piece, k) {
                    piece.name->0
                } else {
                    was.name
                })
                &&& after[k].arguments == (if piece.arguments is Some {
                    was.arguments + piece.arguments->0
                } else {
                    was.arguments
                })
            }
        }),
{
    let room = with_room(calls, piece.index);
    if piece.index == k {
        assert(room[k].arguments + Seq::<char>::empty() =~= room[k].arguments);
    }
}

proof fn lemma_call(pieces: Seq<CallDeltaView>, k: int)
    requires
        0 <= k,
    ensures
        ({
            let after = after_pieces(Seq::empty(), pieces);
            &&& forall|p: int|
                0 <= p < pieces.len() ==> (#[trigger] pieces[p]).index < after.len()
            &&& k < after.len() ==> {
                &&& after[k].arguments == text_for(pieces, k)
                &&& forall|p: int| #[trigger]
                    last_id_at(pieces, k, p) ==> after[k].id == pieces[p].id->0
                &&& forall|p: int| #[trigger]
                    last_name_at(pieces, k, p) ==> after[k].name == pieces[p].name->0
                &&& (forall|p: int| 0 <= p < pieces.len() ==> !gives_id(#[trigger] pieces[p], k))
                    ==> after[k].id == Seq::<char>::empty()
                &&& (forall|p: int| 0 <= p < pieces.len() ==> !gives_name(#[trigger] pieces[p], k))
                    ==> after[k].name == Seq::<char>::empty()
            }
            &&& k >= after.len() ==> text_for(pieces, k) == Seq::<char>::empty()
        }),
    decreases pieces.len(),
{
    if pieces.len() > 0 {
        let front = pieces.drop_last();
        let n = front.len() as int;
        let before = after_pieces(Seq::empty(), front);
        let after = after_pieces(Seq::empty(), pieces);
        let piece = pieces.last();
        lemma_call(front, k);
        lemma_piece(before, piece, k);
        assert forall|p: int| 0 <= p < pieces.len() implies (#[trigger] pieces[p]).index
            < after.len() by {
            if p < n {
                assert(front[p] == pieces[p]);
            }
        }
        if k < after.len() {
            assert forall|p: int| #[trigger] last_id_at(pieces, k, p) implies after[k].id
                == pieces[p].id->0 by {
                if p < n {
                    assert(!gives_id(pieces[n], k));
                    assert(front[p] == pieces[p]);
                    assert forall|q: int| p < q < front.len() implies !gives_id(
                        #[trigger] front[q],
                        k,
                    ) by {
                        assert(!gives_id(pieces[q], k));
                    }
                    assert(last_id_at(front, k, p));
                    assert(front[p].index < before.len());
                }
            }
            assert forall|p: int| #[trigger] last_name_at(pieces, k, p) implies after[k].name
                == pieces[p].name->0 by {
                if p < n {
                    assert(!gives_name(pieces[n], k));
                    assert(front[p] == pieces[p]);
                    assert forall|q: int| p < q < front.len() implies !gives_name(
                        #[trigger] front[q],
                        k,
                    ) by {
                        assert(!gives_name(pieces[q], k));
                    }
                    assert(last_name_at(front, k, p));
                    assert(front[p].index < before.len());
                }
            }
            if forall|p: int| 0 <= p < pieces.len() ==> !gives_id(#[trigger] pieces[p], k) {
                assert(!gives_id(pieces[n], k));
                assert forall|p: int| 0 <= p < front.len() implies !gives_id(
                    #[trigger] front[p],
                    k,
                ) by {
                    assert(!gives_id(pieces[p], k));
                }
            }
            if forall|p: int| 0 <= p < pieces.len() ==> !gives_name(#[trigger] pieces[p], k) {
                assert(!gives_name(pieces[n], k));
                assert forall|p: int| 0 <= p < front.len() implies !gives_name(
                    #[trigger] front[p],
                    k,
                ) by {
                    assert(!gives_name(pieces[p], k));
                }
            }
            assert(Seq::<char>::empty() + text_for(pieces, k) =~= text_for(pieces, k));
            if k >= before.len() && piece.arguments is Some {
                assert(Seq::<char>::empty() + piece.arguments->0 =~= piece.arguments->0);
                assert(text_for(front, k) + piece.arguments->0 =~= piece.arguments->0);
            }
        }
    }
}

proof fn lemma_few_calls(pieces: Seq<CallDeltaView>, n: int)
    requires
        n >= 0,
        forall|p: int| 0 <= p < pieces.len() ==> (#[trigger] pieces[p]).index < n,
    ensures
        after_pieces(Seq::empty(), pieces).len() <= n,
    decreases pieces.len(),
{
    if pieces.len() > 0 {
        let front = pieces.drop_last();
        assert forall|p: int| 0 <= p < front.len() implies (#[trigger] front[p]).index < n by {
            assert(pieces[p].index < n);
        }
        lemma_few_calls(front, n);
        lemma_piece(after_pieces(Seq::empty(), front), pieces.last(), 0);
        assert(pieces[pieces.len() - 1].index < n);
    }
}

proof fn lemma_all_finished(calls: Seq<AccumView>)
    requires
        forall|k: int| 0 <= k < calls.len() ==> (#[trigger] calls[k]).id.len() > 0,
    ensures
        finished_calls(calls).len() == calls.len(),
        forall|k: int|
            0 <= k < calls.len() ==> #[trigger] finished_calls(calls)[k] == finished_call(calls[k]),
    decreases calls.len(),
{
    if calls.len() > 0 {
        let front = calls.drop_last();
        let n = front.len() as int;
        assert forall|k: int| 0 <= k < front.len() implies (#[trigger] front[k]).id.len() > 0 by {
            assert(calls[k].id.len() > 0);
        }
        lemma_all_finished(front);
        assert(calls[n].id.len() > 0);
        assert forall|k: int| 0 <= k < calls.len() implies #[trigger] finished_calls(calls)[k]
            == finished_call(calls[k]) by {
            if k < n {
                assert(finished_calls(front)[k] == finished_call(front[k]));
            }
        }
    }
}

/// The answer at the end of chunks holds all that they say, one behind the other,
/// and one tool call for each number: with the last id and the last name that a
/// piece of that number gives, and with the texts of its pieces, one behind the
/// other, for its arguments.
pub proof fn chunks_are_put_together(
    chunks: Seq<ChunkView>,
    ids: Seq<int>,
    names: Seq<int>,
)
    requires
        ids.len() == names.len(),
        forall|p: int|
            0 <= p < pieces_in(chunks).len() ==> (#[trigger] pieces_in(chunks)[p]).index
                < ids.len(),
        forall|k: int| 0 <= k < ids.len() ==> last_id_at(pieces_in(chunks), k, #[trigger] ids[k]),
        forall|k: int|
            0 <= k < ids.len() ==> last_name_at(pieces_in(chunks), k, #[trigger] names[k]),
    ensures
        match done_event(after_chunks(no_answer(), chunks)) {
            EventView::Done { content, tool_calls, .. } => {
                &&& content == seq![PartView::Text(chunks_say(chunks))]
                &&& tool_calls.len() == ids.len()
                &&& forall|k: int|
                    0 <= k < ids.len() ==> is_call(
                        #[trigger] tool_calls[k],
                        pieces_in(chunks)[ids[k]].id->0,
                        pieces_in(chunks)[names[k]].name->0,
                        text_for(pieces_in(chunks), k),
                    )
            },
            _ => false,
        },
{
    lemma_chunks(chunks);
    let pieces = pieces_in(chunks);
    let calls = after_pieces(Seq::empty(), pieces);
    let n = ids.len() as int;
    lemma_call(pieces, 0);
    lemma_few_calls(pieces, n);
    if n > 0 {
        assert(last_id_at(pieces, n - 1, ids[n - 1]));
        assert(pieces[ids[n - 1]].index < calls.len());
    }
    assert(calls.len() == n);
    assert forall|k: int| 0 <= k < n implies {
        &&& (#[trigger] calls[k]).id == pieces[ids[k]].id->0
        &&& calls[k].name == pieces[names[k]].name->0
        &&& calls[k].arguments == text_for(pieces, k)
        &&& calls[k].id.len() > 0
    } by {
        lemma_call(pieces, k);
        assert(last_id_at(pieces, k, ids[k]));
        assert(last_name_at(pieces, k, names[k]));
    }
    lemma_all_finished(calls);
    let tool_calls = finished_calls(calls);
    assert forall|k: int| 0 <= k < n implies is_call(
        #[trigger] tool_calls[k],
        pieces[ids[k]].id->0,
        pieces[names[k]].name->0,
        text_for(pieces, k),
    ) by {
        assert(tool_calls[k] == finished_call(calls[k]));
    }
}

/// The reason at the end of chunks is the last one that a chunk gives, and the
/// cost is what the last chunk tells that tells of any: the tokens of the prompt
/// as input, and those of the completion as output.
pub proof fn chunks_end_as_the_last_one_says(chunks: Seq<ChunkView>, p: int, q: int)
    requires
        -1 <= p < chunks.len(),
        -1 <= q < chunks.len(),
        p >= 0 ==> chunks[p].choices.len() > 0 && chunks[p].choices[0].finish_reason is Some,
        forall|i: int|
            p < i < chunks.len() ==> (#[trigger] chunks[i]).choices.len() == 0
                || chunks[i].choices[0].finish_reason is None,
        q >= 0 ==> chunks[q].usage is Some && (chunks[q].usage->0.prompt_tokens > 0
            || chunks[q].usage->0.completion_tokens > 0),
        forall|i: int|
            q < i < chunks.len() ==> (#[trigger] chunks[i]).usage is None
                || chunks[i].usage->0.prompt_tokens == 0 && chunks[i].usage->0.completion_tokens
                == 0,
    ensures
        match done_event(after_chunks(no_answer(), chunks)) {
            EventView::Done { stop_reason, usage, .. } => {
                &&& p >= 0 ==> stop_reason == chunks[p].choices[0].finish_reason->0
                &&& p < 0 ==> stop_reason.len() == 0
                &&& q >= 0 ==> usage.input_tokens == chunks[q].usage->0.prompt_tokens
                    && usage.output_tokens == chunks[q].usage->0.completion_tokens
                &&& q < 0 ==> usage.input_tokens == 0 && usage.output_tokens == 0
                &&& usage.thinking_tokens == 0
            },
            _ => false,
        },
    decreases chunks.len(),
{
    if chunks.len() > 0 {
        let front = chunks.drop_last();
        let n = front.len() as int;
        let p1 = if p < n {
            p
        } else {
            last_reason(front)
        };
        let q1 = if q < n {
            q
        } else {
            last_usage(front)
        };
        lemma_last_reason(front);
        lemma_last_usage(front);
        assert forall|i: int| p1 < i < front.len() implies (#[trigger] front[i]).choices.len() == 0
            || front[i].choices[0].finish_reason is None by {
            assert(front[i] == chunks[i]);
        }
        assert forall|i: int| q1 < i < front.len() implies (#[trigger] front[i]).usage is None
            || front[i].usage->0.prompt_tokens == 0 && front[i].usage->0.completion_tokens == 0 by {
            assert(front[i] == chunks[i]);
        }
        if 0 <= p1 {
            assert(front[p1] == chunks[p1]);
        }
        if 0 <= q1 {
            assert(front[q1] == chunks[q1]);
        }
        chunks_end_as_the_last_one_says(front, p1, q1);
        assert(chunks[n] == chunks.last());
    }
}

spec fn last_reason(chunks: Seq<ChunkView>) -> int
    decreases chunks.len(),
{
    if chunks.len() == 0 {
        -1
    } else if chunks.last().choices.len() > 0 && chunks.last().choices[0].finish_reason is Some {
        chunks.len() - 1
    } else {
        last_reason(chunks.drop_last())
    }
}

proof fn lemma_last_reason(chunks: Seq<ChunkView>)
    ensures
        ({
            let p = last_reason(chunks);
            &&& -1 <= p < chunks.len()
            &&& p >= 0 ==> chunks[p].choices.len() > 0 && chunks[p].choices[0].finish_reason is Some
            &&& forall|i: int|
                p < i < chunks.len() ==> (#[trigger] chunks[i]).choices.len() == 0
                    || chunks[i].choices[0].finish_reason is None
        }),
    decreases chunks.len(),
{
    if chunks.len() > 0 {
        let front = chunks.drop_last();
        lemma_last_reason(front);
        let p = last_reason(chunks);
        assert forall|i: int| p < i < chunks.len() implies (#[trigger] chunks[i]).choices.len() == 0
            || chunks[i].choices[0].finish_reason is None by {
            if i < front.len() {
                assert(front[i] == chunks[i]);
            }
        }
    }
}

spec fn last_usage(chunks: Seq<ChunkView>) -> int
    decreases chunks.len(),
{
    if chunks.len() == 0 {
        -1
    } else if chunks.last().usage is Some && (chunks.last().usage->0.prompt_tokens > 0
        || chunks.last().usage->0.completion_tokens > 0) {
        chunks.len() - 1
    } else {
        last_usage(chunks.drop_last())
    }
}

proof fn lemma_last_usage(chunks: Seq<ChunkView>)
    ensures
        ({
            let q = last_usage(chunks);
            &&& -1 <= q < chunks.len()
            &&& q >= 0 ==> chunks[q].usage is Some && (chunks[q].usage->0.prompt_tokens > 0
                || chunks[q].usage->0.completion_tokens > 0)
            &&& forall|i: int|
                q < i < chunks.len() ==> (#[trigger] chunks[i]).usage is None
                    || chunks[i].usage->0.prompt_tokens == 0
                    && chunks[i].usage->0.completion_tokens == 0
        }),
    decreases chunks.len(),
{
    if chunks.len() > 0 {
        let front = chunks.drop_last();
        lemma_last_usage(front);
        let q = last_usage(chunks);
        assert forall|i: int| q < i < chunks.len() implies (#[trigger] chunks[i]).usage is None
            || chunks[i].usage->0.prompt_tokens == 0 && chunks[i].usage->0.completion_tokens == 0 by {
            if i < front.len() {
                assert(front[i] == chunks[i]);
            }
        }
    }
}

/// A payload that is a chunk adds it to the answer and is told at once; the one
/// that announces the end makes the answer known as it is by then; anything else
/// changes nothing, and nothing counts after the end.
pub proof fn payloads_are_chunks_or_the_end(
    answer: AnswerView,
    data: Seq<char>,
    chunk: Option<ChunkView>,
)
    ensures
        answer.done ==> after_payload(answer, data, chunk) == answer && payload_events(
            answer,
            data,
            chunk,
        ).len() == 0,
        !answer.done && data == "[DONE]"@ ==> {
            &&& after_payload(answer, data, chunk).done
            &&& payload_events(answer, data, chunk) == seq![done_event(answer)]
        },
        !answer.done && data != "[DONE]"@ && chunk is None ==> after_payload(answer, data, chunk)
            == answer && payload_events(answer, data, chunk).len() == 0,
        !answer.done && data != "[DONE]"@ && chunk is Some ==> {
            &&& after_payload(answer, data, chunk) == after_chunk(answer, chunk->0)
            &&& chunk->0.choices.len() > 0 && chunk->0.choices[0].content is Some
                ==> payload_events(answer, data, chunk) == seq![
                EventView::Delta {
                    content: seq![PartView::Text(chunk->0.choices[0].content->0)],
                    usage: None,
                },
            ]
            &&& chunk->0.choices.len() == 0 || chunk->0.choices[0].content is None
                ==> payload_events(answer, data, chunk).len() == 0
        },
{
}

// ---------------------------------------------------------------------------
// The Anthropic API

/// Whether an event opens a tool call.
pub open spec fn opens_call(event: AnthropicEventView) -> bool {
    &&& event.type_ == "content_block_start"@
    &&& event.index is Some
    &&& event.content_block is Some
    &&& event.content_block->0 is ToolUse
}

/// Whether an event opens a tool call under this number.
pub open spec fn opens_number(event: AnthropicEventView, k: u32) -> bool {
    opens_call(event) && event.index == Some(k)
}

/// Whether one of the events opens a tool call under this number.
pub open spec fn is_open(events: Seq<AnthropicEventView>, k: u32) -> bool {
    exists|p: int| 0 <= p < events.len() && opens_number(#[trigger] events[p], k)
}

/// The text for the arguments of the call of this number, from its opening on.
pub open spec fn partial_text(events: Seq<AnthropicEventView>, k: u32) -> Seq<char>
    decreases events.len(),
{
    if events.len() == 0 {
        Seq::empty()
    } else {
        let before = partial_text(events.drop_last(), k);
        let event = events.last();
        if event.type_ == "content_block_delta"@ && event.index == Some(k) && event.delta is Some
            && event.delta->0.partial_json is Some && is_open(events.drop_last(), k) {
            before + event.delta->0.partial_json->0
        } else {
            before
        }
    }
}

/// What events say, one behind the other.
pub open spec fn events_say(events: Seq<AnthropicEventView>) -> Seq<char>
    decreases events.len(),
{
    if events.len() == 0 {
        Seq::empty()
    } else {
        let before = events_say(events.drop_last());
        let event = events.last();
        if event.type_ == "content_block_delta"@ && event.delta is Some && event.delta->0.text
            is Some {
            before + event.delta->0.text->0
        } else {
            before
        }
    }
}

/// Whether the end of the answer, if announced, is announced by the last event.
pub open spec fn ends_last(events: Seq<AnthropicEventView>) -> bool {
    forall|p: int|
        0 <= p < events.len() - 1 ==> (#[trigger] events[p]).type_ != "message_stop"@
}

/// Whether each number is opened at most once.
pub open spec fn opened_once(events: Seq<AnthropicEventView>) -> bool {
    forall|p: int, q: int|
        0 <= p < q < events.len() && opens_call(#[trigger] events[p]) && opens_call(
            #[trigger] events[q],
        ) ==> events[p].index != events[q].index
}

/// Whether an open call is the one that the event at `p` has opened.
spec fn is_opened_by(call: OpenCallView, events: Seq<AnthropicEventView>, p: int) -> bool {
    &&& 0 <= p < events.len()
    &&& opens_number(events[p], call.index)
    &&& call.call.id == events[p].content_block->0->ToolUse_id
    &&& call.call.name == events[p].content_block->0->name
    &&& call.call.arguments == partial_text(events, call.index)
}

proof fn lemma_words_differ()
    ensures
        "content_block_start"@ != "content_block_delta"@,
        "content_block_start"@ != "message_delta"@,
        "content_block_start"@ != "message_stop"@,
        "content_block_delta"@ != "message_delta"@,
        "content_block_delta"@ != "message_stop"@,
        "message_delta"@ != "message_stop"@,
{
    reveal_strlit("content_block_start");
    reveal_strlit("content_block_delta");
    reveal_strlit("message_delta");
    reveal_strlit("message_stop");
    assert("content_block_start"@[14] != "content_block_delta"@[14]);
    assert("content_block_start"@[0] != "message_delta"@[0]);
    assert("content_block_start"@[0] != "message_stop"@[0]);
    assert("content_block_delta"@[0] != "message_delta"@[0]);
    assert("content_block_delta"@[0] != "message_stop"@[0]);
    assert("message_delta"@[8] != "message_stop"@[8]);
}

proof fn lemma_parts_of_run(events: Seq<AnthropicEventView>)
    requires
        events.len() > 0,
        ends_last(events),
    ensures
        ends_last(events.drop_last()),
        forall|p: int|
            0 <= p < events.drop_last().len() ==> (#[trigger] events.drop_last()[p]).type_
                != "message_stop"@,
{
    let front = events.drop_last();
    assert forall|p: int| 0 <= p < front.len() implies (#[trigger] front[p]).type_
        != "message_stop"@ by {
        assert(events[p].type_ != "message_stop"@);
    }
}

proof fn lemma_not_done(events: Seq<AnthropicEventView>)
    requires
        forall|p: int|
            0 <= p < events.len() ==> (#[trigger] events[p]).type_ != "message_stop"@,
    ensures
        !after_events(no_anthropic_answer(), events).done,
    decreases events.len(),
{
    if events.len() > 0 {
        let front = events.drop_last();
        assert forall|p: int| 0 <= p < front.len() implies (#[trigger] front[p]).type_
            != "message_stop"@ by {
            assert(events[p].type_ != "message_stop"@);
        }
        lemma_not_done(front);
        assert(events[events.len() - 1].type_ != "message_stop"@);
    }
}

/// Whether one of the events has opened a call.
#[verifier::opaque]
spec fn was_opened(call: OpenCallView, events: Seq<AnthropicEventView>) -> bool {
    exists|p: int| is_opened_by(call, events, p)
}

proof fn opened_at(call: OpenCallView, events: Seq<AnthropicEventView>) -> (p: int)
    requires
        was_opened(call, events),
    ensures
        is_opened_by(call, events, p),
{
    reveal(was_opened);
    choose|p: int| is_opened_by(call, events, p)
}

proof fn lemma_was_opened(call: OpenCallView, events: Seq<AnthropicEventView>, p: int)
    requires
        is_opened_by(call, events, p),
    ensures
        was_opened(call, events),
{
    reveal(was_opened);
}

/// Whether one of the calls has this number.
#[verifier::opaque]
spec fn is_kept(calls: Seq<OpenCallView>, k: u32) -> bool {
    exists|i: int| 0 <= i < calls.len() && (#[trigger] calls[i]).index == k
}

proof fn kept_at(calls: Seq<OpenCallView>, k: u32) -> (i: int)
    requires
        is_kept(calls, k),
    ensures
        0 <= i < calls.len(),
        calls[i].index == k,
{
    reveal(is_kept);
    choose|i: int| 0 <= i < calls.len() && (#[trigger] calls[i]).index == k
}

proof fn lemma_kept(calls: Seq<OpenCallView>, k: u32, i: int)
    requires
        0 <= i < calls.len(),
        calls[i].index == k,
    ensures
        is_kept(calls, k),
{
    reveal(is_kept);
}

/// Whether these are the calls that the events have opened.
spec fn are_opened(calls: Seq<OpenCallView>, events: Seq<AnthropicEventView>) -> bool {
    &&& forall|i: int| 0 <= i < calls.len() ==> was_opened(#[trigger] calls[i], events)
    &&& forall|p: int|
        0 <= p < events.len() && opens_call(#[trigger] events[p]) ==> is_kept(
            calls,
            events[p].index->0,
        )
}

/// A call that is opened takes its place among those that are open.
proof fn lemma_opening(events: Seq<AnthropicEventView>)
    requires
        events.len() > 0,
        opened_once(events),
        opens_call(events.last()),
        !after_events(no_anthropic_answer(), events.drop_last()).done,
        in_order(after_events(no_anthropic_answer(), events.drop_last()).calls),
        are_opened(
            after_events(no_anthropic_answer(), events.drop_last()).calls,
            events.drop_last(),
        ),
    ensures
        ({
            let calls = after_events(no_anthropic_answer(), events.drop_last()).calls;
            let new = after_events(no_anthropic_answer(), events).calls;
            let k = events.last().index->0;
            let at = place_for(calls, k) as int;
            &&& !has_call(calls, k)
            &&& 0 <= at <= calls.len()
            &&& new == calls.insert(at, new[at])
            &&& is_opened_by(new[at], events, events.len() - 1)
            &&& in_order(new)
        }),
{
    lemma_words_differ();
    let front = events.drop_last();
    let n = front.len() as int;
    let event = events.last();
    let calls = after_events(no_anthropic_answer(), front).calls;
    let new = after_events(no_anthropic_answer(), events).calls;
    let k = event.index->0;
    lemma_place(calls, k);
    let at = place_for(calls, k) as int;
    assert(opens_call(events[n]));
    assert(!has_call(calls, k)) by {
        if has_call(calls, k) {
            let p = opened_at(calls[at], front);
            assert(front[p] == events[p]);
            assert(opens_call(events[p]));
        }
    }
    assert(!is_open(front, k)) by {
        if is_open(front, k) {
            let p = choose|p: int| 0 <= p < front.len() && opens_number(#[trigger] front[p], k);
            assert(front[p] == events[p]);
            assert(opens_call(events[p]));
        }
    }
    lemma_nothing_before_opening(front, k);
    assert(new == calls.insert(at, new[at]));
    assert(is_opened_by(new[at], events, n));
    assert forall|i: int, j: int| 0 <= i < j < new.len() implies (#[trigger] new[i]).index < (
    #[trigger] new[j]).index by {
        let old_i = if i < at {
            i
        } else {
            i - 1
        };
        let old_j = if j < at {
            j
        } else {
            j - 1
        };
        if i != at && j != at {
            assert(new[i] == calls[old_i] && new[j] == calls[old_j]);
            assert(calls[old_i].index < calls[old_j].index);
        } else if i == at {
            assert(new[j] == calls[old_j]);
            if at < old_j {
                assert(calls[at].index < calls[old_j].index);
            }
        } else {
            assert(new[i] == calls[old_i]);
        }
    }
}

/// The open calls after events are those that the events have opened.
proof fn lemma_open_calls(events: Seq<AnthropicEventView>)
    requires
        ends_last(events),
        opened_once(events),
    ensures
        in_order(after_events(no_anthropic_answer(), events).calls),
        are_opened(after_events(no_anthropic_answer(), events).calls, events),
    decreases events.len(),
{
    if events.len() > 0 {
        let front = events.drop_last();
        lemma_parts_of_run(events);
        lemma_not_done(front);
        assert(opened_once(front)) by {
            assert forall|p: int, q: int|
                0 <= p < q < front.len() && opens_call(#[trigger] front[p]) && opens_call(
                    #[trigger] front[q],
                ) implies front[p].index != front[q].index by {
                assert(opens_call(events[p]) && opens_call(events[q]));
            }
        }
        lemma_open_calls(front);
        if opens_call(events.last()) {
            lemma_opening(events);
            lemma_opened_more(events);
        } else {
            lemma_opened_as_before(events);
        }
    }
}

proof fn lemma_opened_more(events: Seq<AnthropicEventView>)
    requires
        events.len() > 0,
        opens_call(events.last()),
        are_opened(
            after_events(no_anthropic_answer(), events.drop_last()).calls,
            events.drop_last(),
        ),
        ({
            let calls = after_events(no_anthropic_answer(), events.drop_last()).calls;
            let new = after_events(no_anthropic_answer(), events).calls;
            let at = place_for(calls, events.last().index->0) as int;
            &&& 0 <= at <= calls.len()
            &&& new == calls.insert(at, new[at])
            &&& is_opened_by(new[at], events, events.len() - 1)
        }),
    ensures
        are_opened(after_events(no_anthropic_answer(), events).calls, events),
{
    lemma_words_differ();
    let front = events.drop_last();
    let n = front.len() as int;
    let calls = after_events(no_anthropic_answer(), front).calls;
    let new = after_events(no_anthropic_answer(), events).calls;
    let at = place_for(calls, events.last().index->0) as int;
    assert forall|i: int| 0 <= i < new.len() implies was_opened(#[trigger] new[i], events) by {
        if i != at {
            let old_i = if i < at {
                i
            } else {
                i - 1
            };
            assert(new[i] == calls[old_i]);
            let p = opened_at(calls[old_i], front);
            assert(events[p] == front[p]);
            assert(partial_text(events, new[i].index) == partial_text(front, new[i].index));
            lemma_was_opened(new[i], events, p);
        } else {
            lemma_was_opened(new[i], events, n);
        }
    }
    assert forall|p: int| 0 <= p < events.len() && opens_call(
        #[trigger] events[p],
    ) implies is_kept(new, events[p].index->0) by {
        if p < n {
            assert(opens_call(front[p]));
            let i = kept_at(calls, front[p].index->0);
            if i < at {
                lemma_kept(new, events[p].index->0, i);
            } else {
                lemma_kept(new, events[p].index->0, i + 1);
            }
        } else {
            lemma_kept(new, events[p].index->0, at);
        }
    }
}

proof fn lemma_opened_as_before(events: Seq<AnthropicEventView>)
    requires
        events.len() > 0,
        !opens_call(events.last()),
        are_opened(
            after_events(no_anthropic_answer(), events.drop_last()).calls,
            events.drop_last(),
        ),
        in_order(after_events(no_anthropic_answer(), events.drop_last()).calls),
        !after_events(no_anthropic_answer(), events.drop_last()).done,
    ensures
        in_order(after_events(no_anthropic_answer(), events).calls),
        are_opened(after_events(no_anthropic_answer(), events).calls, events),
{
    let front = events.drop_last();
    let n = front.len() as int;
    let calls = after_events(no_anthropic_answer(), front).calls;
    let new = after_events(no_anthropic_answer(), events).calls;
    lemma_other_event(events);
    assert forall|i: int| 0 <= i < new.len() implies was_opened(#[trigger] new[i], events) by {
        let p = opened_at(calls[i], front);
        assert(events[p] == front[p]);
        assert(is_open(front, calls[i].index)) by {
            assert(opens_number(front[p], calls[i].index));
        }
        lemma_was_opened(new[i], events, p);
    }
    assert forall|i: int, j: int| 0 <= i < j < new.len() implies (#[trigger] new[i]).index < (
    #[trigger] new[j]).index by {
        assert(calls[i].index < calls[j].index);
    }
    assert forall|p: int| 0 <= p < events.len() && opens_call(
        #[trigger] events[p],
    ) implies is_kept(new, events[p].index->0) by {
        assert(p < n);
        assert(opens_call(front[p]));
        let i = kept_at(calls, front[p].index->0);
        lemma_kept(new, events[p].index->0, i);
    }
}

proof fn lemma_nothing_before_opening(events: Seq<AnthropicEventView>, k: u32)
    requires
        !is_open(events, k),
    ensures
        partial_text(events, k) == Seq::<char>::empty(),
    decreases events.len(),
{
    if events.len() > 0 {
        let front = events.drop_last();
        assert(!is_open(front, k)) by {
            if is_open(front, k) {
                let p = choose|p: int| 0 <= p < front.len() && opens_number(#[trigger] front[p], k);
                assert(opens_number(events[p], k));
            }
        }
        lemma_nothing_before_opening(front, k);
    }
}

/// An event that opens no call leaves the calls as they are, but for more of the
/// arguments of one.
proof fn lemma_other_event(events: Seq<AnthropicEventView>)
    requires
        events.len() > 0,
        !opens_call(events.last()),
        !after_events(no_anthropic_answer(), events.drop_last()).done,
        in_order(after_events(no_anthropic_answer(), events.drop_last()).calls),
    ensures
        ({
            let calls = after_events(no_anthropic_answer(), events.drop_last()).calls;
            let new = after_events(no_anthropic_answer(), events).calls;
            let event = events.last();
            &&& new.len() == calls.len()
            &&& forall|i: int|
                0 <= i < calls.len() ==> {
                    &&& (#[trigger] new[i]).index == calls[i].index
                    &&& new[i].call.id == calls[i].call.id
                    &&& new[i].call.name == calls[i].call.name
                    &&& new[i].call.arguments == (if event.type_ == "content_block_delta"@
                        && event.index == Some(calls[i].index) && event.delta is Some
                        && event.delta->0.partial_json is Some {
                        calls[i].call.arguments + event.delta->0.partial_json->0
                    } else {
                        calls[i].call.arguments
                    })
                }
        }),
{
    lemma_words_differ();
    let calls = after_events(no_anthropic_answer(), events.drop_last()).calls;
    let new = after_events(no_anthropic_answer(), events).calls;
    let event = events.last();
    if event.type_ == "content_block_delta"@ && event.index is Some && event.delta is Some
        && event.delta->0.partial_json is Some {
        let k = event.index->0;
        lemma_place(calls, k);
        let at = place_for(calls, k) as int;
        assert forall|i: int| 0 <= i < calls.len() && (#[trigger] calls[i]).index == k implies i
            == at by {
            if at < i {
                assert(calls[at].index < calls[i].index);
            }
        }
    }
}

proof fn lemma_same_numbers(a: Seq<u32>, b: Seq<u32>)
    requires
        forall|i: int, j: int| 0 <= i < j < a.len() ==> a[i] < a[j],
        forall|i: int, j: int| 0 <= i < j < b.len() ==> b[i] < b[j],
        forall|i: int| 0 <= i < a.len() ==> b.contains(#[trigger] a[i]),
        forall|i: int| 0 <= i < b.len() ==> a.contains(#[trigger] b[i]),
    ensures
        a == b,
    decreases a.len(),
{
    if a.len() == 0 {
        if b.len() > 0 {
            assert(a.contains(b[0]));
        }
        assert(a =~= b);
    } else {
        assert(b.contains(a[0]));
        let m = a.len() - 1;
        let n = b.len() - 1;
        let i = b.index_of(a[m]);
        let j = a.index_of(b[n]);
        assert(b.contains(a[m]) && a.contains(b[n]));
        assert(a[m] == b[n]) by {
            if i < n {
                assert(b[i] < b[n]);
                if j < m {
                    assert(a[j] < a[m]);
                }
            }
        }
        let a1 = a.drop_last();
        let b1 = b.drop_last();
        assert forall|k: int| 0 <= k < a1.len() implies b1.contains(#[trigger] a1[k]) by {
            assert(b.contains(a[k]));
            let x = b.index_of(a[k]);
            assert(a[k] < a[m]);
            assert(b1[x] == a1[k]);
        }
        assert forall|k: int| 0 <= k < b1.len() implies a1.contains(#[trigger] b1[k]) by {
            assert(a.contains(b[k]));
            let x = a.index_of(b[k]);
            assert(b[k] < b[n]);
            assert(a1[x] == b1[k]);
        }
        lemma_same_numbers(a1, b1);
        assert(a =~= a1.push(a[m]));
        assert(b =~= b1.push(b[n]));
    }
}

proof fn lemma_all_closed(calls: Seq<OpenCallView>)
    requires
        forall|k: int| 0 <= k < calls.len() ==> (#[trigger] calls[k]).call.id.len() > 0,
    ensures
        closed_calls(calls).len() == calls.len(),
        forall|k: int|
            0 <= k < calls.len() ==> #[trigger] closed_calls(calls)[k] == finished_call(
                calls[k].call,
            ),
    decreases calls.len(),
{
    if calls.len() > 0 {
        let front = calls.drop_last();
        let n = front.len() as int;
        assert forall|k: int| 0 <= k < front.len() implies (#[trigger] front[k]).call.id.len()
            > 0 by {
            assert(calls[k].call.id.len() > 0);
        }
        lemma_all_closed(front);
        assert(calls[n].call.id.len() > 0);
        assert forall|k: int| 0 <= k < calls.len() implies #[trigger] closed_calls(calls)[k]
            == finished_call(calls[k].call) by {
            if k < n {
                assert(closed_calls(front)[k] == finished_call(front[k].call));
            }
        }
    }
}

/// Where each number is opened once, and with an id, the answer at the end of
/// events has one tool call for each opening, in the order of their numbers: with
/// the id and the name that the opening gives, and with the pieces that came
/// under its number, one behind the other, for its arguments. `starts` are the
/// places of the openings, in the order of their numbers.
pub proof fn opened_calls_are_put_together(events: Seq<AnthropicEventView>, starts: Seq<int>)
    requires
        ends_last(events),
        forall|j: int|
            0 <= j < starts.len() ==> 0 <= #[trigger] starts[j] < events.len() && opens_call(
                events[starts[j]],
            ) && events[starts[j]].content_block->0->ToolUse_id.len() > 0,
        forall|i: int, j: int|
            0 <= i < j < starts.len() ==> events[#[trigger] starts[i]].index->0
                < events[#[trigger] starts[j]].index->0,
        forall|p: int|
            0 <= p < events.len() && opens_call(#[trigger] events[p]) ==> starts.contains(p),
    ensures
        match anthropic_done(after_events(no_anthropic_answer(), events)) {
            EventView::Done { tool_calls, .. } => {
                &&& tool_calls.len() == starts.len()
                &&& forall|j: int|
                    0 <= j < starts.len() ==> is_call(
                        #[trigger] tool_calls[j],
                        events[starts[j]].content_block->0->ToolUse_id,
                        events[starts[j]].content_block->0->name,
                        partial_text(events, events[starts[j]].index->0),
                    )
            },
            _ => false,
        },
{
    assert(opened_once(events)) by {
        assert forall|p: int, q: int|
            0 <= p < q < events.len() && opens_call(#[trigger] events[p]) && opens_call(
                #[trigger] events[q],
            ) implies events[p].index != events[q].index by {
            assert(starts.contains(p) && starts.contains(q));
            let i = starts.index_of(p);
            let j = starts.index_of(q);
            if i < j {
                assert(events[starts[i]].index->0 < events[starts[j]].index->0);
            } else {
                assert(events[starts[j]].index->0 < events[starts[i]].index->0);
            }
        }
    }
    lemma_open_calls(events);
    let calls = after_events(no_anthropic_answer(), events).calls;
    let a = Seq::new(calls.len(), |i: int| calls[i].index);
    let b = Seq::new(starts.len(), |j: int| events[starts[j]].index->0);
    assert forall|i: int, j: int| 0 <= i < j < a.len() implies a[i] < a[j] by {
        assert(calls[i].index < calls[j].index);
    }
    assert forall|i: int, j: int| 0 <= i < j < b.len() implies b[i] < b[j] by {
        assert(events[starts[i]].index->0 < events[starts[j]].index->0);
    }
    assert forall|i: int| 0 <= i < a.len() implies b.contains(#[trigger] a[i]) by {
        let p = opened_at(calls[i], events);
        assert(opens_call(events[p]));
        assert(starts.contains(p));
        let j = starts.index_of(p);
        assert(b[j] == a[i]);
    }
    assert forall|j: int| 0 <= j < b.len() implies a.contains(#[trigger] b[j]) by {
        let p = starts[j];
        assert(opens_call(events[p]));
        let i = kept_at(calls, events[p].index->0);
        assert(a[i] == b[j]);
    }
    lemma_same_numbers(a, b);
    assert forall|j: int| 0 <= j < calls.len() implies is_opened_by(
        #[trigger] calls[j],
        events,
        starts[j],
    ) by {
        let p = opened_at(calls[j], events);
        assert(a[j] == b[j]);
        assert(opens_call(events[p]) && opens_call(events[starts[j]]));
        if p < starts[j] {
            assert(events[p].index != events[starts[j]].index);
        }
        if starts[j] < p {
            assert(events[starts[j]].index != events[p].index);
        }
    }
    assert(calls.len() == starts.len()) by {
        assert(a.len() == b.len());
    }
    assert forall|k: int| 0 <= k < calls.len() implies (#[trigger] calls[k]).call.id.len() > 0 by {
        assert(is_opened_by(calls[k], events, starts[k]));
    }
    lemma_all_closed(calls);
    let tool_calls = closed_calls(calls);
    assert forall|j: int| 0 <= j < starts.len() implies is_call(
        #[trigger] tool_calls[j],
        events[starts[j]].content_block->0->ToolUse_id,
        events[starts[j]].content_block->0->name,
        partial_text(events, events[starts[j]].index->0),
    ) by {
        assert(is_opened_by(calls[j], events, starts[j]));
        assert(tool_calls[j] == finished_call(calls[j].call));
    }
}

/// The answer at the end of events holds all that they say, one behind the
/// other, and nothing where they say nothing.
pub proof fn events_are_put_together(events: Seq<AnthropicEventView>)
    requires
        ends_last(events),
    ensures
        match anthropic_done(after_events(no_anthropic_answer(), events)) {
            EventView::Done { content, .. } => {
                &&& events_say(events).len() > 0 ==> content == seq![
                    PartView::Text(events_say(events)),
                ]
                &&& events_say(events).len() == 0 ==> content.len() == 0
            },
            _ => false,
        },
{
    lemma_text(events);
}

proof fn lemma_text(events: Seq<AnthropicEventView>)
    requires
        ends_last(events),
    ensures
        after_events(no_anthropic_answer(), events).text == events_say(events),
    decreases events.len(),
{
    lemma_words_differ();
    if events.len() > 0 {
        let front = events.drop_last();
        lemma_parts_of_run(events);
        lemma_not_done(front);
        lemma_text(front);
        let before = after_events(no_anthropic_answer(), front);
        assert(before.text + Seq::<char>::empty() =~= before.text);
    }
}

/// Whether an event tells why the answer ends.
pub open spec fn tells_reason(event: AnthropicEventView) -> bool {
    event.type_ == "message_delta"@ && event.delta is Some && event.delta->0.stop_reason is Some
}

/// Whether an event tells what the answer has cost.
pub open spec fn tells_cost(event: AnthropicEventView) -> bool {
    event.type_ == "message_delta"@ && event.usage is Some
}

/// The reason at the end of events is the last one that is told, and so is the
/// cost: tokens that went in as input, and those that came out as output.
pub proof fn events_end_as_the_last_one_says(events: Seq<AnthropicEventView>, p: int, q: int)
    requires
        ends_last(events),
        -1 <= p < events.len(),
        -1 <= q < events.len(),
        p >= 0 ==> tells_reason(events[p]),
        q >= 0 ==> tells_cost(events[q]),
        forall|i: int| p < i < events.len() ==> !tells_reason(#[trigger] events[i]),
        forall|i: int| q < i < events.len() ==> !tells_cost(#[trigger] events[i]),
    ensures
        match anthropic_done(after_events(no_anthropic_answer(), events)) {
            EventView::Done { stop_reason, usage, .. } => {
                &&& p >= 0 ==> stop_reason == events[p].delta->0.stop_reason->0
                &&& p < 0 ==> stop_reason.len() == 0
                &&& q >= 0 ==> usage.input_tokens == events[q].usage->0.input_tokens
                    && usage.output_tokens == events[q].usage->0.output_tokens
                &&& q < 0 ==> usage.input_tokens == 0 && usage.output_tokens == 0
                &&& usage.thinking_tokens == 0
            },
            _ => false,
        },
    decreases events.len(),
{
    lemma_words_differ();
    if events.len() > 0 {
        let front = events.drop_last();
        let n = front.len() as int;
        lemma_parts_of_run(events);
        lemma_not_done(front);
        lemma_last_told(front);
        let p1 = if p < n {
            p
        } else {
            last_told_reason(front)
        };
        let q1 = if q < n {
            q
        } else {
            last_told_cost(front)
        };
        assert forall|i: int| p1 < i < front.len() implies !tells_reason(#[trigger] front[i]) by {
            assert(front[i] == events[i]);
        }
        assert forall|i: int| q1 < i < front.len() implies !tells_cost(#[trigger] front[i]) by {
            assert(front[i] == events[i]);
        }
        if 0 <= p1 {
            assert(front[p1] == events[p1]);
        }
        if 0 <= q1 {
            assert(front[q1] == events[q1]);
        }
        events_end_as_the_last_one_says(front, p1, q1);
        assert(events[n] == events.last());
    }
}

spec fn last_told_reason(events: Seq<AnthropicEventView>) -> int
    decreases events.len(),
{
    if events.len() == 0 {
        -1
    } else if tells_reason(events.last()) {
        events.len() - 1
    } else {
        last_told_reason(events.drop_last())
    }
}

spec fn last_told_cost(events: Seq<AnthropicEventView>) -> int
    decreases events.len(),
{
    if events.len() == 0 {
        -1
    } else if tells_cost(events.last()) {
        events.len() - 1
    } else {
        last_told_cost(events.drop_last())
    }
}

proof fn lemma_last_told(events: Seq<AnthropicEventView>)
    ensures
        ({
            let p = last_told_reason(events);
            let q = last_told_cost(events);
            &&& -1 <= p < events.len()
            &&& -1 <= q < events.len()
            &&& p >= 0 ==> tells_reason(events[p])
            &&& q >= 0 ==> tells_cost(events[q])
            &&& forall|i: int| p < i < events.len() ==> !tells_reason(#[trigger] events[i])
            &&& forall|i: int| q < i < events.len() ==> !tells_cost(#[trigger] events[i])
        }),
    decreases events.len(),
{
    if events.len() > 0 {
        let front = events.drop_last();
        lemma_last_told(front);
        let p = last_told_reason(events);
        let q = last_told_cost(events);
        assert forall|i: int| p < i < events.len() implies !tells_reason(#[trigger] events[i]) by {
            if i < front.len() {
                assert(front[i] == events[i]);
            }
        }
        assert forall|i: int| q < i < events.len() implies !tells_cost(#[trigger] events[i]) by {
            if i < front.len() {
                assert(front[i] == events[i]);
            }
        }
    }
}

/// The last event of an answer is the one that announces its end.
pub proof fn message_stop_ends_the_answer(events: Seq<AnthropicEventView>)
    requires
        ends_last(events),
        events.len() > 0,
    ensures
        after_events(no_anthropic_answer(), events).done == (events.last().type_
            == "message_stop"@),
{
    lemma_words_differ();
    lemma_parts_of_run(events);
    lemma_not_done(events.drop_last());
    assert(after_events(no_anthropic_answer(), events) == after_event(
        after_events(no_anthropic_answer(), events.drop_last()),
        events.last(),
    ));
}

// ---------------------------------------------------------------------------
// Streams that end in another way

/// Whether these events make an answer in one piece look like a stream: all of it
/// at once, and then its end.
pub open spec fn is_all_at_once(
    events: Seq<EventView>,
    content: Seq<PartView>,
    usage: Option<OpenAiUsage>,
) -> bool {
    let spent = crate::models::TokenUsage {
        input_tokens: if usage is Some {
            usage->0.prompt_tokens
        } else {
            0
        },
        output_tokens: if usage is Some {
            usage->0.completion_tokens
        } else {
            0
        },
        thinking_tokens: 0,
    };
    &&& events.len() == 2
    &&& events[0] == (EventView::Delta { content, usage: Some(spent) })
    &&& events[1] matches EventView::Done { content: all, usage: cost, .. } && all == content
        && cost == spent
}

/// A stream that is refused is asked for in one piece, unless the key was at
/// fault. The texts of the first choice are then the answer; and where that fails
/// too, the client is told of both failures under the first status.
pub proof fn refused_stream_is_asked_for_in_one_piece(
    status: u16,
    body: Seq<char>,
    answer: OpenAiChatResponse,
    text: String,
)
    ensures
        worth_asking_again(status) <==> status != 401 && status != 403,
        answer.choices@.len() > 0 ==> is_all_at_once(
            second_try(status, body, WholeReply::Answer(answer)),
            content_texts(answer.choices@[0]@.content),
            answer.usage,
        ),
        answer.choices@.len() == 0 ==> is_all_at_once(
            second_try(status, body, WholeReply::Answer(answer)),
            Seq::empty(),
            answer.usage,
        ),
        second_try(status, body, WholeReply::Unreadable(text)) == seq![
            EventView::Error("Parse error: "@ + text@),
        ],
        second_try(status, body, WholeReply::Refused(text)) == seq![
            EventView::HttpError { status, message: body + "; non-stream also failed: "@ + text@ },
        ],
        second_try(status, body, WholeReply::NotSent(text)) == seq![
            EventView::HttpError { status, message: body + "; fallback failed: "@ + text@ },
        ],
{
    if answer.choices@.len() > 0 {
        assert(choices_of(answer.choices@)[0] == answer.choices@[0]@);
    }
}

/// A stream that breaks is asked for in one piece, which is then the answer; and
/// where that fails, the client is told what broke the stream.
pub proof fn broken_stream_is_asked_for_in_one_piece(
    error: Seq<char>,
    answer: OpenAiChatResponse,
    text: String,
)
    ensures
        answer.choices@.len() > 0 ==> is_all_at_once(
            after_break(error, WholeReply::Answer(answer)),
            content_texts(answer.choices@[0]@.content),
            answer.usage,
        ),
        after_break(error, WholeReply::Unreadable(text)) == seq![
            EventView::Error("Stream broken: "@ + error),
        ],
        after_break(error, WholeReply::Refused(text)) == seq![
            EventView::Error("Stream broken: "@ + error),
        ],
        after_break(error, WholeReply::NotSent(text)) == seq![
            EventView::Error("Stream broken: "@ + error),
        ],
{
    if answer.choices@.len() > 0 {
        assert(choices_of(answer.choices@)[0] == answer.choices@[0]@);
    }
}

/// A stream that ends unannounced ends with what it said. Where it said nothing
/// and called no tool, and what came is an answer in one piece, that is the
/// answer: with all the pieces of its first choice, its tool calls with their
/// ids, names and arguments, its reason and its cost.
pub proof fn unannounced_end_is_an_end(
    answer: AnswerView,
    left: Seq<char>,
    choices: Seq<ChoiceView>,
    usage: Option<OpenAiUsage>,
)
    ensures
        end_events(answer, left, None) == seq![done_event(answer)],
        answer.text.len() > 0 || answer.calls.len() > 0 || left.len() == 0 || choices.len() == 0
            ==> end_events(answer, left, Some((choices, usage))) == seq![done_event(answer)],
        answer.text.len() == 0 && answer.calls.len() == 0 && left.len() > 0 && choices.len() > 0
            ==> {
            let events = end_events(answer, left, Some((choices, usage)));
            &&& is_all_at_once(events, content_parts(choices[0].content), usage)
            &&& match events[1] {
                EventView::Done { tool_calls, stop_reason, .. } => {
                    &&& match choices[0].finish_reason {
                        Some(reason) => stop_reason == reason,
                        None => stop_reason.len() == 0,
                    }
                    &&& choices[0].tool_calls is None ==> tool_calls.len() == 0
                    &&& choices[0].tool_calls is Some ==> {
                        &&& tool_calls.len() == choices[0].tool_calls->0.len()
                        &&& forall|i: int|
                            0 <= i < tool_calls.len() ==> {
                                let sent = choices[0].tool_calls->0[i];
                                &&& (#[trigger] tool_calls[i]).id == sent.id
                                &&& tool_calls[i].name == sent.name
                                &&& tool_calls[i].arguments_raw == Some(sent.arguments)
                            }
                    }
                },
                _ => false,
            }
        },
{
}

/// An event tells its text at once, if it has one, and nothing after the end.
pub proof fn events_tell_their_text_at_once(answer: AnthropicAnswerView, event: AnthropicEventView)
    ensures
        !answer.done && event.type_ == "content_block_delta"@ && event.delta is Some
            && event.delta->0.text is Some ==> event_tells(answer, event) == seq![
            EventView::Delta {
                content: seq![PartView::Text(event.delta->0.text->0)],
                usage: None,
            },
        ],
        answer.done || event.type_ != "content_block_delta"@ || event.delta is None
            || event.delta->0.text is None ==> event_tells(answer, event).len() == 0,
        answer.done ==> after_event(answer, event) == answer,
{
}

/// A call that is opened again keeps its arguments, and its id and its name where
/// it has them; where it has none, it gets those of the new opening. The other
/// calls stay as they are.
pub proof fn opening_again_keeps_what_is_there(
    answer: AnthropicAnswerView,
    event: AnthropicEventView,
    i: int,
    j: int,
)
    requires
        !answer.done,
        in_order(answer.calls),
        opens_call(event),
        0 <= i < answer.calls.len(),
        answer.calls[i].index == event.index->0,
        0 <= j < answer.calls.len(),
        i != j,
    ensures
        ({
            let new = after_event(answer, event).calls;
            let was = answer.calls[i].call;
            &&& new.len() == answer.calls.len()
            &&& new[j] == answer.calls[j]
            &&& new[i].index == answer.calls[i].index
            &&& new[i].call.arguments == was.arguments
            &&& was.id.len() > 0 ==> new[i].call.id == was.id
            &&& was.id.len() == 0 ==> new[i].call.id == event.content_block->0->ToolUse_id
            &&& was.name.len() > 0 ==> new[i].call.name == was.name
            &&& was.name.len() == 0 ==> new[i].call.name == event.content_block->0->name
        }),
{
    lemma_words_differ();
    let k = event.index->0;
    lemma_place(answer.calls, k);
    let at = place_for(answer.calls, k) as int;
    if at < i {
        assert(answer.calls[at].index < answer.calls[i].index);
    }
}

} // verus!
