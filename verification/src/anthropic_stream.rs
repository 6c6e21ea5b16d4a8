//! Streamed answers of the Anthropic API: the events of an answer are put
//! together again.
use crate::json::parse;
use crate::models::{
    calls_of, events_of, no_usage, opt_text, parts_of, text_in, ContentPart, EventView, PartView,
    StreamEvent, TokenUsage, ToolCall, ToolCallView,
};
use crate::openai_stream::{finished_call, told_by, AccumView, ToolCallAccum};
use crate::reply::{anthropic_tokens, make_call, text_or_empty, AnthropicUsage};
use crate::text::{concat, same};
use crate::wire::{AnthropicContentBlock, BlockView};
use vstd::prelude::*;

verus! {

/// What an event changes.
#[derive(Debug)]
pub struct AnthropicStreamDelta {
    pub text: Option<String>,
    /// More of the arguments of a tool call.
    pub partial_json: Option<String>,
    pub stop_reason: Option<String>,
}

/// The same as a value.
pub struct StreamDeltaView {
    pub text: Option<Seq<char>>,
    pub partial_json: Option<Seq<char>>,
    pub stop_reason: Option<Seq<char>>,
}

impl View for AnthropicStreamDelta {
    type V = StreamDeltaView;

    open spec fn view(&self) -> StreamDeltaView {
        StreamDeltaView {
            text: opt_text(self.text),
            partial_json: opt_text(self.partial_json),
            stop_reason: opt_text(self.stop_reason),
        }
    }
}

/// An event of a streamed answer.
#[derive(Debug)]
pub struct AnthropicStreamEvent {
    pub type_: String,
    /// The number of the block that the event is about.
    pub index: Option<u32>,
    pub delta: Option<AnthropicStreamDelta>,
    pub content_block: Option<AnthropicContentBlock>,
    pub usage: Option<AnthropicUsage>,
}

/// An event of a streamed answer as a value.
pub struct AnthropicEventView {
    pub type_: Seq<char>,
    pub index: Option<u32>,
    pub delta: Option<StreamDeltaView>,
    pub content_block: Option<BlockView>,
    pub usage: Option<AnthropicUsage>,
}

impl View for AnthropicStreamEvent {
    type V = AnthropicEventView;

    open spec fn view(&self) -> AnthropicEventView {
        AnthropicEventView {
            type_: self.type_@,
            index: self.index,
            delta: match self.delta {
                Some(delta) => Some(delta@),
                None => None,
            },
            content_block: match self.content_block {
                Some(block) => Some(block@),
                None => None,
            },
            usage: self.usage,
        }
    }
}

/// A tool call as far as it has come, with the number of its block.
#[derive(Debug)]
pub struct OpenCall {
    pub index: u32,
    pub call: ToolCallAccum,
}

/// The same as a value.
pub struct OpenCallView {
    pub index: u32,
    pub call: AccumView,
}

impl View for OpenCall {
    type V = OpenCallView;

    open spec fn view(&self) -> OpenCallView {
        OpenCallView { index: self.index, call: self.call@ }
    }
}

/// Open calls as values.
pub open spec fn open_calls_of(calls: Seq<OpenCall>) -> Seq<OpenCallView> {
    calls.map_values(|c: OpenCall| c@)
}

/// Whether calls stand in the order of their numbers, each number once.
pub open spec fn in_order(calls: Seq<OpenCallView>) -> bool {
    forall|i: int, j: int|
        0 <= i < j < calls.len() ==> (#[trigger] calls[i]).index < (#[trigger] calls[j]).index
}

/// How many calls have a smaller number.
pub open spec fn place_for(calls: Seq<OpenCallView>, index: u32) -> nat
    decreases calls.len(),
{
    if calls.len() == 0 {
        0
    } else {
        place_for(calls.drop_last(), index) + (if calls.last().index < index {
            1nat
        } else {
            0
        })
    }
}

/// The call of this number, if there is one.
pub open spec fn has_call(calls: Seq<OpenCallView>, index: u32) -> bool {
    let at = place_for(calls, index);
    at < calls.len() && calls[at as int].index == index
}

/// A text that takes the place of an empty one.
pub open spec fn first_text(now: Seq<char>, new: Seq<char>) -> Seq<char> {
    if now.len() == 0 {
        new
    } else {
        now
    }
}

/// The calls after one was opened. An open one keeps the id and the name that
/// it has.
pub open spec fn opened(
    calls: Seq<OpenCallView>,
    index: u32,
    id: Seq<char>,
    name: Seq<char>,
) -> Seq<OpenCallView> {
    let at = place_for(calls, index) as int;
    if has_call(calls, index) {
        let call = calls[at].call;
        calls.update(
            at,
            OpenCallView {
                index,
                call: AccumView {
                    id: first_text(call.id, id),
                    name: first_text(call.name, name),
                    arguments: call.arguments,
                },
            },
        )
    } else {
        calls.insert(
            at,
            OpenCallView { index, call: AccumView { id, name, arguments: Seq::empty() } },
        )
    }
}

/// The calls after more of the arguments of one has come. Nothing is known of a
/// call that was not opened.
pub open spec fn continued(calls: Seq<OpenCallView>, index: u32, more: Seq<char>) -> Seq<
    OpenCallView,
> {
    let at = place_for(calls, index) as int;
    if has_call(calls, index) {
        let call = calls[at].call;
        calls.update(
            at,
            OpenCallView { index, call: AccumView { arguments: call.arguments + more, ..call } },
        )
    } else {
        calls
    }
}

/// An answer as far as it has come.
pub struct AnthropicAnswerView {
    pub text: Seq<char>,
    pub usage: TokenUsage,
    pub stop_reason: Seq<char>,
    pub calls: Seq<OpenCallView>,
    /// Whether the end of the answer was announced.
    pub done: bool,
}

/// Nothing of an answer.
pub open spec fn no_anthropic_answer() -> AnthropicAnswerView {
    AnthropicAnswerView {
        text: Seq::empty(),
        usage: no_usage(),
        stop_reason: Seq::empty(),
        calls: Seq::empty(),
        done: false,
    }
}

/// An answer after a block was opened.
pub open spec fn after_start(
    answer: AnthropicAnswerView,
    event: AnthropicEventView,
) -> AnthropicAnswerView {
    match (event.index, event.content_block) {
        (Some(index), Some(BlockView::ToolUse { id, name, .. })) => AnthropicAnswerView {
            calls: opened(answer.calls, index, id, name),
            ..answer
        },
        _ => answer,
    }
}

/// An answer after more of a block has come.
pub open spec fn after_delta(
    answer: AnthropicAnswerView,
    event: AnthropicEventView,
) -> AnthropicAnswerView {
    match event.delta {
        Some(delta) => AnthropicAnswerView {
            text: answer.text + text_or_empty(delta.text),
            calls: match (event.index, delta.partial_json) {
                (Some(index), Some(more)) => continued(answer.calls, index, more),
                _ => answer.calls,
            },
            ..answer
        },
        None => answer,
    }
}

/// An answer after it was told why it ends and what it has cost.
pub open spec fn after_summary(
    answer: AnthropicAnswerView,
    event: AnthropicEventView,
) -> AnthropicAnswerView {
    AnthropicAnswerView {
        stop_reason: match event.delta {
            Some(delta) => match delta.stop_reason {
                Some(reason) => reason,
                None => answer.stop_reason,
            },
            None => answer.stop_reason,
        },
        usage: match event.usage {
            Some(usage) => anthropic_tokens(usage),
            None => answer.usage,
        },
        ..answer
    }
}

/// An answer after an event. What comes after the end counts no more.
pub open spec fn after_event(
    answer: AnthropicAnswerView,
    event: AnthropicEventView,
) -> AnthropicAnswerView {
    if answer.done {
        answer
    } else if event.type_ == "content_block_start"@ {
        after_start(answer, event)
    } else if event.type_ == "content_block_delta"@ {
        after_delta(answer, event)
    } else if event.type_ == "message_delta"@ {
        after_summary(answer, event)
    } else if event.type_ == "message_stop"@ {
        AnthropicAnswerView { done: true, ..answer }
    } else {
        answer
    }
}

/// What an event tells at once: its text, if it has one.
pub open spec fn event_tells(
    answer: AnthropicAnswerView,
    event: AnthropicEventView,
) -> Seq<EventView> {
    if !answer.done && event.type_ == "content_block_delta"@ && event.delta is Some
        && event.delta->0.text is Some {
        seq![
            EventView::Delta {
                content: seq![PartView::Text(event.delta->0.text->0)],
                usage: None,
            },
        ]
    } else {
        Seq::empty()
    }
}

/// The tool calls of an answer: those that have an id, in the order of their
/// numbers.
pub open spec fn closed_calls(calls: Seq<OpenCallView>) -> Seq<ToolCallView>
    decreases calls.len(),
{
    if calls.len() == 0 {
        Seq::empty()
    } else {
        let call = calls.last().call;
        if call.id.len() == 0 {
            closed_calls(calls.drop_last())
        } else {
            closed_calls(calls.drop_last()).push(finished_call(call))
        }
    }
}

/// The content of an answer: its text, if it has one.
pub open spec fn answer_content(text: Seq<char>) -> Seq<PartView> {
    if text.len() == 0 {
        Seq::empty()
    } else {
        seq![PartView::Text(text)]
    }
}

/// The event at the end of an answer.
pub open spec fn anthropic_done(answer: AnthropicAnswerView) -> EventView {
    EventView::Done {
        content: answer_content(answer.text),
        tool_calls: closed_calls(answer.calls),
        usage: answer.usage,
        stop_reason: answer.stop_reason,
    }
}

/// The place for a number stands behind the calls of smaller numbers, and before
/// all others.
pub proof fn lemma_place(calls: Seq<OpenCallView>, index: u32)
    requires
        in_order(calls),
    ensures
        place_for(calls, index) <= calls.len(),
        forall|i: int|
            0 <= i < calls.len() ==> ((#[trigger] calls[i]).index < index <==> i < place_for(
                calls,
                index,
            )),
    decreases calls.len(),
{
    if calls.len() > 0 {
        let front = calls.drop_last();
        assert(in_order(front)) by {
            assert forall|i: int, j: int| 0 <= i < j < front.len() implies (#[trigger] front[i]).index
                < (#[trigger] front[j]).index by {
                assert(calls[i].index < calls[j].index);
            }
        }
        lemma_place(front, index);
        let n = calls.len() - 1;
        assert forall|i: int| 0 <= i < calls.len() implies ((#[trigger] calls[i]).index < index
            <==> i < place_for(calls, index)) by {
            if i < n {
                assert(front[i] == calls[i]);
                assert(calls[i].index < calls[n].index);
                if calls[n].index < index {
                    assert(front[i].index < index);
                    assert(n > 0);
                    assert(front[n - 1].index < index) by {
                        assert(calls[n - 1].index < calls[n].index);
                    }
                }
            } else {
                if calls[n].index < index && n > 0 {
                    assert(calls[n - 1].index < calls[n].index);
                    assert(front[n - 1].index < index);
                }
            }
        }
    }
}

proof fn lemma_starts_are_no_deltas()
    ensures
        "content_block_start"@ != "content_block_delta"@,
{
    reveal_strlit("content_block_start");
    reveal_strlit("content_block_delta");
    assert("content_block_start"@[14] != "content_block_delta"@[14]);
}

/// A streamed answer.
#[derive(Debug)]
pub struct AnthropicStream {
    pub text: String,
    pub usage: TokenUsage,
    pub stop_reason: String,
    pub calls: Vec<OpenCall>,
    pub done: bool,
}

impl View for AnthropicStream {
    type V = AnthropicAnswerView;

    open spec fn view(&self) -> AnthropicAnswerView {
        AnthropicAnswerView {
            text: self.text@,
            usage: self.usage,
            stop_reason: self.stop_reason@,
            calls: open_calls_of(self.calls@),
            done: self.done,
        }
    }
}

impl AnthropicStream {
    /// Whether the calls stand in the order of their numbers.
    pub open spec fn wf(&self) -> bool {
        in_order(self@.calls)
    }

    /// A stream of which nothing has come.
    pub fn new() -> (stream: AnthropicStream)
        ensures
            stream.wf(),
            stream@ == no_anthropic_answer(),
    {
        let stream = AnthropicStream {
            text: String::new(),
            usage: TokenUsage::default(),
            stop_reason: String::new(),
            calls: Vec::new(),
            done: false,
        };
        assert(stream@.calls =~= Seq::empty());
        stream
    }

    fn place(&self, index: u32) -> (at: usize)
        requires
            self.wf(),
        ensures
            at == place_for(self@.calls, index),
            at <= self.calls@.len(),
    {
        let ghost calls = self@.calls;
        proof {
            lemma_place(calls, index);
        }
        let mut at: usize = 0;
        while at < self.calls.len() && self.calls[at].index < index
            invariant
                calls == self@.calls,
                at <= self.calls@.len(),
                forall|i: int|
                    0 <= i < calls.len() ==> ((#[trigger] calls[i]).index < index <==> i
                        < place_for(calls, index)),
                place_for(calls, index) <= calls.len(),
                at <= place_for(calls, index),
            decreases self.calls@.len() - at,
        {
            assert(calls[at as int].index < index);
            at = at + 1;
        }
        if at < self.calls.len() {
            assert(calls[at as int] == self.calls@[at as int]@);
        }
        at
    }

    fn open(&mut self, index: u32, id: &String, name: &String)
        requires
            old(self).wf(),
        ensures
            final(self).wf(),
            final(self)@ == (AnthropicAnswerView {
                calls: opened(old(self)@.calls, index, id@, name@),
                ..old(self)@
            }),
    {
        let ghost before = self@.calls;
        proof {
            lemma_place(before, index);
        }
        let at: usize = self.place(index);
        let n: usize = self.calls.len();
        if at < n && self.calls[at].index == index {
            assert(before[at as int] == self.calls@[at as int]@);
            let mut call = ToolCallAccum {
                id: self.calls[at].call.id.clone(),
                name: self.calls[at].call.name.clone(),
                arguments: self.calls[at].call.arguments.clone(),
            };
            if call.id.as_str().unicode_len() == 0 {
                call.id = id.clone();
            }
            if call.name.as_str().unicode_len() == 0 {
                call.name = name.clone();
            }
            let entry = OpenCall { index, call };
            let ghost view = entry@;
            self.calls.set(at, entry);
            assert(open_calls_of(self.calls@) =~= before.update(at as int, view));
            assert(self@.calls == opened(before, index, id@, name@));
        } else {
            if at < n {
                assert(before[at as int] == self.calls@[at as int]@);
            }
            let entry = OpenCall {
                index,
                call: ToolCallAccum {
                    id: id.clone(),
                    name: name.clone(),
                    arguments: String::new(),
                },
            };
            let ghost view = entry@;
            self.calls.insert(at, entry);
            assert(open_calls_of(self.calls@) =~= before.insert(at as int, view));
            assert(view == OpenCallView {
                index,
                call: AccumView { id: id@, name: name@, arguments: Seq::empty() },
            });
            assert(self@.calls == opened(before, index, id@, name@));
            assert(in_order(self@.calls)) by {
                let after = self@.calls;
                assert forall|i: int, j: int| 0 <= i < j < after.len() implies (
                #[trigger] after[i]).index < (#[trigger] after[j]).index by {
                    let old_i = if i < at {
                        i
                    } else {
                        i - 1
                    };
                    let old_j = if j < at {
                        j
                    } else {
                        j - 1
                    };
                    if i != at {
                        assert(after[i] == before[old_i]);
                    }
                    if j != at {
                        assert(after[j] == before[old_j]);
                    }
                    if i != at && j != at {
                        assert(before[old_i].index < before[old_j].index);
                    }
                    if i == at {
                        assert(before[old_j].index >= index);
                        if old_j > at {
                            assert(before[at as int].index < before[old_j].index);
                        }
                        assert(before[at as int].index >= index);
                    }
                }
            }
        }
    }

    fn go_on(&mut self, index: u32, more: &str)
        requires
            old(self).wf(),
        ensures
            final(self).wf(),
            final(self)@ == (AnthropicAnswerView {
                calls: continued(old(self)@.calls, index, more@),
                ..old(self)@
            }),
    {
        let ghost before = self@.calls;
        let at: usize = self.place(index);
        let n: usize = self.calls.len();
        if at < n && self.calls[at].index == index {
            assert(before[at as int] == self.calls@[at as int]@);
            let call = ToolCallAccum {
                id: self.calls[at].call.id.clone(),
                name: self.calls[at].call.name.clone(),
                arguments: concat(self.calls[at].call.arguments.as_str(), more),
            };
            let entry = OpenCall { index, call };
            let ghost view = entry@;
            self.calls.set(at, entry);
            assert(open_calls_of(self.calls@) =~= before.update(at as int, view));
        } else {
            if at < n {
                assert(before[at as int] == self.calls@[at as int]@);
            }
        }
    }

    /// Takes an event of the stream, and gives what it tells at once.
    pub fn on_event(&mut self, event: &AnthropicStreamEvent) -> (events: Vec<StreamEvent>)
        requires
            old(self).wf(),
        ensures
            final(self).wf(),
            final(self)@ == after_event(old(self)@, event@),
            events_of(events@) == event_tells(old(self)@, event@),
    {
        let mut events: Vec<StreamEvent> = Vec::new();
        assert(events_of(events@) =~= Seq::empty());
        if self.done {
            return events;
        }
        let ghost before = self@;
        proof {
            lemma_starts_are_no_deltas();
        }
        if same(event.type_.as_str(), "content_block_start") {
            if let Some(index) = event.index {
                if let Some(AnthropicContentBlock::ToolUse { id, name, .. }) = &event.content_block {
                    self.open(index, id, name);
                }
            }
        } else if same(event.type_.as_str(), "content_block_delta") {
            if let Some(delta) = &event.delta {
                match &delta.text {
                    Some(text) => {
                        self.text.append(text.as_str());
                        let content: Vec<ContentPart> = vec![
                            ContentPart::Text { text: text.clone() },
                        ];
                        assert(parts_of(content@) =~= seq![PartView::Text(text@)]);
                        events.push(StreamEvent::Delta { content, usage: None });
                        assert(events_of(events@) =~= event_tells(before, event@));
                    },
                    None => {
                        assert(before.text + Seq::<char>::empty() =~= before.text);
                    },
                }
                if let Some(index) = event.index {
                    if let Some(more) = &delta.partial_json {
                        self.go_on(index, more.as_str());
                    }
                }
            }
        } else if same(event.type_.as_str(), "message_delta") {
            if let Some(delta) = &event.delta {
                if let Some(reason) = &delta.stop_reason {
                    self.stop_reason = reason.clone();
                }
            }
            if let Some(usage) = event.usage {
                self.usage = TokenUsage {
                    input_tokens: usage.input_tokens,
                    output_tokens: usage.output_tokens,
                    thinking_tokens: 0,
                };
            }
        } else if same(event.type_.as_str(), "message_stop") {
            self.done = true;
        }
        events
    }

    fn closed(&self) -> (out: Vec<ToolCall>)
        ensures
            calls_of(out@) == closed_calls(self@.calls),
    {
        let ghost all = self@.calls;
        let mut out: Vec<ToolCall> = Vec::new();
        let mut i: usize = 0;
        assert(all.take(0) =~= Seq::empty());
        assert(calls_of(out@) =~= Seq::empty());
        while i < self.calls.len()
            invariant
                i <= self.calls@.len(),
                all == self@.calls,
                calls_of(out@) == closed_calls(all.take(i as int)),
            decreases self.calls@.len() - i,
        {
            let ghost before = calls_of(out@);
            assert(all.take(i + 1).drop_last() =~= all.take(i as int));
            assert(all.take(i + 1).last() == self.calls@[i as int]@);
            let call = &self.calls[i].call;
            if call.id.as_str().unicode_len() > 0 {
                let raw = if call.arguments.as_str().unicode_len() == 0 {
                    None
                } else {
                    Some(call.arguments.clone())
                };
                let made = make_call(
                    call.id.clone(),
                    call.name.clone(),
                    raw,
                    parse(call.arguments.as_str()),
                );
                let ghost view = made@;
                out.push(made);
                assert(calls_of(out@) =~= before.push(view));
            }
            i = i + 1;
        }
        assert(all.take(all.len() as int) =~= all);
        out
    }

    /// The event at the end of the stream.
    pub fn on_end(&self) -> (event: StreamEvent)
        ensures
            event@ == anthropic_done(self@),
    {
        let mut content: Vec<ContentPart> = Vec::new();
        if self.text.as_str().unicode_len() > 0 {
            content.push(ContentPart::Text { text: self.text.clone() });
        }
        assert(parts_of(content@) =~= answer_content(self.text@));
        StreamEvent::Done {
            content,
            tool_calls: self.closed(),
            usage: self.usage,
            stop_reason: self.stop_reason.clone(),
        }
    }
}

/// The event where a stream cannot be opened.
pub fn open_failed(error: &str) -> (event: StreamEvent)
    ensures
        event@ == EventView::Error("Failed to open stream: "@ + error@),
{
    StreamEvent::Error(concat("Failed to open stream: ", error))
}

/// The event where a stream fails.
pub fn stream_failed(error: &str) -> (event: StreamEvent)
    ensures
        event@ == EventView::Error("Stream error: "@ + error@),
{
    StreamEvent::Error(concat("Stream error: ", error))
}

/// An answer after more events.
pub open spec fn after_events(
    answer: AnthropicAnswerView,
    events: Seq<AnthropicEventView>,
) -> AnthropicAnswerView
    decreases events.len(),
{
    if events.len() == 0 {
        answer
    } else {
        after_event(after_events(answer, events.drop_last()), events.last())
    }
}

/// What events tell on the way.
pub open spec fn events_tell(
    answer: AnthropicAnswerView,
    events: Seq<AnthropicEventView>,
) -> Seq<EventView>
    decreases events.len(),
{
    if events.len() == 0 {
        Seq::empty()
    } else {
        events_tell(answer, events.drop_last()) + event_tells(
            after_events(answer, events.drop_last()),
            events.last(),
        )
    }
}

/// The text of the whole answer is what the events on the way told, one behind
/// the other.
pub proof fn anthropic_answer_is_what_was_told(events: Seq<AnthropicEventView>)
    ensures
        after_events(no_anthropic_answer(), events).text == told_by(
            events_tell(no_anthropic_answer(), events),
        ),
    decreases events.len(),
{
    lemma_starts_are_no_deltas();
    if events.len() > 0 {
        let start = no_anthropic_answer();
        anthropic_answer_is_what_was_told(events.drop_last());
        let before = events_tell(start, events.drop_last());
        let so_far = after_events(start, events.drop_last());
        let new = event_tells(so_far, events.last());
        if new.len() > 0 {
            assert((before + new).drop_last() =~= before);
            let told = events.last().delta->0.text->0;
            let content = seq![PartView::Text(told)];
            assert(content.drop_last() =~= Seq::empty());
            reveal_with_fuel(text_in, 2);
            assert(text_in(content) =~= told);
        } else {
            assert(before + new =~= before);
            assert(so_far.text + Seq::<char>::empty() =~= so_far.text);
        }
    }
}

/// Nothing that comes after the end changes an answer.
pub proof fn end_is_final(answer: AnthropicAnswerView, events: Seq<AnthropicEventView>)
    requires
        answer.done,
    ensures
        after_events(answer, events) == answer,
        events_tell(answer, events) == Seq::<EventView>::empty(),
    decreases events.len(),
{
    if events.len() > 0 {
        end_is_final(answer, events.drop_last());
    }
}

} // verus!
