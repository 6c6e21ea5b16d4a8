//! Streamed answers of the OpenAI API: the chunks of an answer are put together
//! again, and where a stream fails the answer is asked for in one piece.
use crate::json::{parse, parsed};
use crate::models::{
    calls_of, events_of, no_usage, opt_text, parts_of, text_in, ContentPart, EventView, PartView,
    StreamEvent, TokenUsage, ToolCall, ToolCallView,
};
use crate::reply::{
    calls_from, choices_of, content_parts, content_texts, extract_openai_response, made_call,
    make_call, merge_openai_text, or_empty, openai_usage, text_or_empty, usage_from, ChoiceView,
    OpenAiChatResponse, OpenAiUsage,
};
use crate::sse::{payloads_in, rest_of, SseBuffer};
use crate::text::{concat, lossy_text, same, texts};
use vstd::prelude::*;

verus! {

/// A piece of a tool call.
#[derive(Debug)]
pub struct OpenAiToolCallDelta {
    /// Which of the answer's calls it belongs to.
    pub index: u32,
    pub id: Option<String>,
    pub name: Option<String>,
    pub arguments: Option<String>,
}

/// A piece of a tool call as a value.
pub struct CallDeltaView {
    pub index: nat,
    pub id: Option<Seq<char>>,
    pub name: Option<Seq<char>>,
    pub arguments: Option<Seq<char>>,
}

impl View for OpenAiToolCallDelta {
    type V = CallDeltaView;

    open spec fn view(&self) -> CallDeltaView {
        CallDeltaView {
            index: self.index as nat,
            id: opt_text(self.id),
            name: opt_text(self.name),
            arguments: opt_text(self.arguments),
        }
    }
}

/// Pieces of tool calls as values.
pub open spec fn deltas_of(deltas: Seq<OpenAiToolCallDelta>) -> Seq<CallDeltaView> {
    deltas.map_values(|d: OpenAiToolCallDelta| d@)
}

/// What a chunk adds to an answer.
#[derive(Debug)]
pub struct OpenAiStreamChoice {
    pub content: Option<String>,
    pub tool_calls: Vec<OpenAiToolCallDelta>,
    pub finish_reason: Option<String>,
}

/// The same as a value.
pub struct StreamChoiceView {
    pub content: Option<Seq<char>>,
    pub tool_calls: Seq<CallDeltaView>,
    pub finish_reason: Option<Seq<char>>,
}

impl View for OpenAiStreamChoice {
    type V = StreamChoiceView;

    open spec fn view(&self) -> StreamChoiceView {
        StreamChoiceView {
            content: opt_text(self.content),
            tool_calls: deltas_of(self.tool_calls@),
            finish_reason: opt_text(self.finish_reason),
        }
    }
}

/// A chunk of an answer. Only its first choice counts.
#[derive(Debug)]
pub struct OpenAiStreamChunk {
    pub choices: Vec<OpenAiStreamChoice>,
    pub usage: Option<OpenAiUsage>,
}

/// A chunk as a value.
pub struct ChunkView {
    pub choices: Seq<StreamChoiceView>,
    pub usage: Option<OpenAiUsage>,
}

impl View for OpenAiStreamChunk {
    type V = ChunkView;

    open spec fn view(&self) -> ChunkView {
        ChunkView {
            choices: self.choices@.map_values(|c: OpenAiStreamChoice| c@),
            usage: self.usage,
        }
    }
}

/// A chunk that may be there, as a value.
pub open spec fn opt_chunk(chunk: Option<OpenAiStreamChunk>) -> Option<ChunkView> {
    match chunk {
        Some(chunk) => Some(chunk@),
        None => None,
    }
}

/// A tool call as far as it has come.
#[derive(Debug)]
pub struct ToolCallAccum {
    pub id: String,
    pub name: String,
    pub arguments: String,
}

/// A tool call as far as it has come, as a value.
pub struct AccumView {
    pub id: Seq<char>,
    pub name: Seq<char>,
    pub arguments: Seq<char>,
}

impl View for ToolCallAccum {
    type V = AccumView;

    open spec fn view(&self) -> AccumView {
        AccumView { id: self.id@, name: self.name@, arguments: self.arguments@ }
    }
}

/// Tool calls as far as they have come, as values.
pub open spec fn accums_of(calls: Seq<ToolCallAccum>) -> Seq<AccumView> {
    calls.map_values(|c: ToolCallAccum| c@)
}

/// Nothing of a tool call.
pub open spec fn no_call() -> AccumView {
    AccumView { id: Seq::empty(), name: Seq::empty(), arguments: Seq::empty() }
}

impl Default for ToolCallAccum {
    fn default() -> (call: ToolCallAccum)
        ensures
            call@ == no_call(),
    {
        ToolCallAccum { id: String::new(), name: String::new(), arguments: String::new() }
    }
}

/// A later text takes the place of an earlier one, unless it is empty.
pub open spec fn later_text(now: Seq<char>, new: Option<Seq<char>>) -> Seq<char> {
    match new {
        Some(text) if text.len() > 0 => text,
        _ => now,
    }
}

/// A tool call with one more piece: its arguments grow.
pub open spec fn with_piece(call: AccumView, piece: CallDeltaView) -> AccumView {
    AccumView {
        id: later_text(call.id, piece.id),
        name: later_text(call.name, piece.name),
        arguments: call.arguments + text_or_empty(piece.arguments),
    }
}

/// The tool calls, with room for the one of this number.
pub open spec fn with_room(calls: Seq<AccumView>, index: nat) -> Seq<AccumView> {
    if index < calls.len() {
        calls
    } else {
        calls + Seq::new((index + 1 - calls.len()) as nat, |i: int| no_call())
    }
}

/// The tool calls with one more piece.
pub open spec fn after_piece(calls: Seq<AccumView>, piece: CallDeltaView) -> Seq<AccumView> {
    let room = with_room(calls, piece.index);
    room.update(piece.index as int, with_piece(room[piece.index as int], piece))
}

/// The tool calls with more pieces.
pub open spec fn after_pieces(calls: Seq<AccumView>, pieces: Seq<CallDeltaView>) -> Seq<AccumView>
    decreases pieces.len(),
{
    if pieces.len() == 0 {
        calls
    } else {
        after_piece(after_pieces(calls, pieces.drop_last()), pieces.last())
    }
}

/// The tool calls of an answer: those that have an id or a name.
pub open spec fn finished_calls(calls: Seq<AccumView>) -> Seq<ToolCallView>
    decreases calls.len(),
{
    if calls.len() == 0 {
        Seq::empty()
    } else {
        let call = calls.last();
        if call.id.len() == 0 && call.name.len() == 0 {
            finished_calls(calls.drop_last())
        } else {
            finished_calls(calls.drop_last()).push(finished_call(call))
        }
    }
}

/// A tool call of an answer.
pub open spec fn finished_call(call: AccumView) -> ToolCallView {
    made_call(
        call.id,
        call.name,
        if call.arguments.len() == 0 {
            None
        } else {
            Some(call.arguments)
        },
        parsed(call.arguments),
    )
}

/// The tool calls of an answer: those that have an id or a name.
pub fn build_stream_tool_calls(acc: &[ToolCallAccum]) -> (out: Vec<ToolCall>)
    ensures
        calls_of(out@) == finished_calls(accums_of(acc@)),
{
    let ghost all = accums_of(acc@);
    let mut out: Vec<ToolCall> = Vec::new();
    let mut i: usize = 0;
    assert(all.take(0) =~= Seq::empty());
    assert(calls_of(out@) =~= Seq::empty());
    while i < acc.len()
        invariant
            i <= acc@.len(),
            all == accums_of(acc@),
            calls_of(out@) == finished_calls(all.take(i as int)),
        decreases acc@.len() - i,
    {
        let ghost before = calls_of(out@);
        assert(all.take(i + 1).drop_last() =~= all.take(i as int));
        assert(all.take(i + 1).last() == acc@[i as int]@);
        let call = &acc[i];
        if call.id.as_str().unicode_len() > 0 || call.name.as_str().unicode_len() > 0 {
            let raw = if call.arguments.as_str().unicode_len() == 0 {
                None
            } else {
                Some(call.arguments.clone())
            };
            let made = make_call(
                call.id.clone(),
                call.name.clone(),
                raw,
                parse(call.arguments.as_str()),
            );
            let ghost view = made@;
            out.push(made);
            assert(calls_of(out@) =~= before.push(view));
        }
        i = i + 1;
    }
    assert(all.take(all.len() as int) =~= all);
    out
}

/// Adds a piece to the tool calls.
fn add_piece(calls: &mut Vec<ToolCallAccum>, piece: &OpenAiToolCallDelta)
    ensures
        accums_of(final(calls)@) == after_piece(accums_of(old(calls)@), piece@),
{
    let ghost before = accums_of(calls@);
    let index: usize = piece.index as usize;
    while calls.len() <= index
        invariant
            before == accums_of(old(calls)@),
            index == piece.index,
            before.len() <= calls@.len(),
            before.len() <= index ==> calls@.len() <= index + 1,
            index < before.len() ==> calls@.len() == before.len(),
            forall|j: int|
                0 <= j < calls@.len() ==> #[trigger] accums_of(calls@)[j] == (if j < before.len() {
                    before[j]
                } else {
                    no_call()
                }),
        decreases index + 1 - calls@.len(),
    {
        let ghost so_far = accums_of(calls@);
        calls.push(ToolCallAccum::default());
        assert(accums_of(calls@) =~= so_far.push(no_call()));
    }
    let ghost room = with_room(before, piece@.index);
    assert(accums_of(calls@) =~= room);
    let mut call = ToolCallAccum {
        id: calls[index].id.clone(),
        name: calls[index].name.clone(),
        arguments: calls[index].arguments.clone(),
    };
    assert(call@ == room[index as int]) by {
        assert(accums_of(calls@)[index as int] == calls@[index as int]@);
    }
    if let Some(id) = &piece.id {
        if id.as_str().unicode_len() > 0 {
            call.id = id.clone();
        }
    }
    if let Some(name) = &piece.name {
        if name.as_str().unicode_len() > 0 {
            call.name = name.clone();
        }
    }
    if let Some(arguments) = &piece.arguments {
        call.arguments.append(arguments.as_str());
    }
    assert(call@ == with_piece(room[index as int], piece@)) by {
        assert(room[index as int].arguments + Seq::<char>::empty()
            =~= room[index as int].arguments);
    }
    let ghost view = call@;
    calls.set(index, call);
    assert(accums_of(calls@) =~= room.update(index as int, view));
}

/// An answer as far as it has come.
pub struct AnswerView {
    pub text: Seq<char>,
    pub usage: TokenUsage,
    pub calls: Seq<AccumView>,
    pub finish_reason: Seq<char>,
    /// Whether the end of the answer was announced.
    pub done: bool,
}

/// The usage after a chunk: the last that tells of any tokens.
pub open spec fn later_usage(now: TokenUsage, new: Option<OpenAiUsage>) -> TokenUsage {
    match new {
        Some(u) if u.prompt_tokens > 0 || u.completion_tokens > 0 => usage_from(Some(u)),
        _ => now,
    }
}

/// An answer with one more chunk.
pub open spec fn after_chunk(answer: AnswerView, chunk: ChunkView) -> AnswerView {
    let usage = later_usage(answer.usage, chunk.usage);
    if chunk.choices.len() == 0 {
        AnswerView { usage, ..answer }
    } else {
        let choice = chunk.choices[0];
        AnswerView {
            text: answer.text + text_or_empty(choice.content),
            usage,
            calls: after_pieces(answer.calls, choice.tool_calls),
            finish_reason: match choice.finish_reason {
                Some(reason) => reason,
                None => answer.finish_reason,
            },
            done: answer.done,
        }
    }
}

/// The event that a chunk gives: its text, if it has one.
pub open spec fn chunk_events(chunk: ChunkView) -> Seq<EventView> {
    if chunk.choices.len() == 0 || chunk.choices[0].content is None {
        Seq::empty()
    } else {
        seq![
            EventView::Delta {
                content: seq![PartView::Text(chunk.choices[0].content->0)],
                usage: None,
            },
        ]
    }
}

/// The event at the end of an answer.
pub open spec fn done_event(answer: AnswerView) -> EventView {
    EventView::Done {
        content: seq![PartView::Text(answer.text)],
        tool_calls: finished_calls(answer.calls),
        usage: answer.usage,
        stop_reason: answer.finish_reason,
    }
}

/// The payload that announces the end of an answer.
pub open spec fn announces_end(data: Seq<char>) -> bool {
    data == "[DONE]"@
}

/// Whether a payload announces the end of an answer.
pub fn is_done(data: &str) -> (b: bool)
    ensures
        b == announces_end(data@),
{
    same(data, "[DONE]")
}

/// An answer after a payload, read as a chunk where it is one. What comes after
/// the end counts no more.
pub open spec fn after_payload(
    answer: AnswerView,
    data: Seq<char>,
    chunk: Option<ChunkView>,
) -> AnswerView {
    if answer.done {
        answer
    } else if announces_end(data) {
        AnswerView { done: true, ..answer }
    } else {
        match chunk {
            Some(chunk) => after_chunk(answer, chunk),
            None => answer,
        }
    }
}

/// The events that a payload gives.
pub open spec fn payload_events(
    answer: AnswerView,
    data: Seq<char>,
    chunk: Option<ChunkView>,
) -> Seq<EventView> {
    if answer.done {
        Seq::empty()
    } else if announces_end(data) {
        seq![done_event(answer)]
    } else {
        match chunk {
            Some(chunk) => chunk_events(chunk),
            None => Seq::empty(),
        }
    }
}

/// The events that make an answer in one piece look like a stream, with the
/// texts of the answer alone.
pub open spec fn whole_answer(choices: Seq<ChoiceView>, usage: Option<OpenAiUsage>) -> Seq<
    EventView,
> {
    let content = content_texts(
        if choices.len() > 0 {
            choices[0].content
        } else {
            None
        },
    );
    seq![
        EventView::Delta { content, usage: Some(usage_from(usage)) },
        EventView::Done {
            content,
            tool_calls: Seq::empty(),
            usage: usage_from(usage),
            stop_reason: Seq::empty(),
        },
    ]
}

/// The same with all pieces of the answer and its tool calls.
pub open spec fn full_answer(choice: ChoiceView, usage: Option<OpenAiUsage>) -> Seq<EventView> {
    seq![
        EventView::Delta {
            content: content_parts(choice.content),
            usage: Some(usage_from(usage)),
        },
        EventView::Done {
            content: content_parts(choice.content),
            tool_calls: calls_from(choice.tool_calls),
            usage: usage_from(usage),
            stop_reason: text_or_empty(choice.finish_reason),
        },
    ]
}

/// A streamed answer, and what has come of the stream beyond it.
#[derive(Debug)]
pub struct OpenAiStream {
    pub buffer: SseBuffer,
    pub text: String,
    pub usage: TokenUsage,
    pub calls: Vec<ToolCallAccum>,
    pub finish_reason: String,
    pub done: bool,
}

impl View for OpenAiStream {
    type V = AnswerView;

    open spec fn view(&self) -> AnswerView {
        AnswerView {
            text: self.text@,
            usage: self.usage,
            calls: accums_of(self.calls@),
            finish_reason: self.finish_reason@,
            done: self.done,
        }
    }
}

/// Nothing of an answer.
pub open spec fn no_answer() -> AnswerView {
    AnswerView {
        text: Seq::empty(),
        usage: no_usage(),
        calls: Seq::empty(),
        finish_reason: Seq::empty(),
        done: false,
    }
}

/// Whether nothing of the stream was an answer, though something has come: it
/// may be an answer in one piece.
pub open spec fn may_be_whole(answer: AnswerView, left: Seq<char>) -> bool {
    answer.text.len() == 0 && answer.calls.len() == 0 && left.len() > 0
}

/// A reply that may be there, with its choices and usage as values.
pub open spec fn opt_reply(reply: Option<OpenAiChatResponse>) -> Option<
    (Seq<ChoiceView>, Option<OpenAiUsage>),
> {
    match reply {
        Some(reply) => Some((choices_of(reply.choices@), reply.usage)),
        None => None,
    }
}

/// The events at the end of a stream that did not announce it.
pub open spec fn end_events(
    answer: AnswerView,
    left: Seq<char>,
    whole: Option<(Seq<ChoiceView>, Option<OpenAiUsage>)>,
) -> Seq<EventView> {
    match whole {
        Some((choices, usage)) if may_be_whole(answer, left) && choices.len() > 0 => full_answer(
            choices[0],
            usage,
        ),
        _ => seq![done_event(answer)],
    }
}

impl OpenAiStream {
    /// A stream of which nothing has come.
    pub fn new() -> (stream: OpenAiStream)
        ensures
            stream@ == no_answer(),
            stream.buffer.text@ == Seq::<char>::empty(),
    {
        let stream = OpenAiStream {
            buffer: SseBuffer::new(),
            text: String::new(),
            usage: TokenUsage::default(),
            calls: Vec::new(),
            finish_reason: String::new(),
            done: false,
        };
        assert(stream@.calls =~= Seq::empty());
        stream
    }

    /// Takes more of the stream, and gives the payloads that are complete.
    pub fn on_bytes(&mut self, bytes: &[u8]) -> (payloads: Vec<String>)
        ensures
            texts(payloads@) == payloads_in(old(self).buffer.text@ + lossy_text(bytes@)),
            final(self).buffer.text@ == rest_of(old(self).buffer.text@ + lossy_text(bytes@)),
            final(self)@ == old(self)@,
    {
        self.buffer.push(bytes);
        self.buffer.take_payloads()
    }

    fn done_now(&self) -> (event: StreamEvent)
        ensures
            event@ == done_event(self@),
    {
        let content: Vec<ContentPart> = vec![ContentPart::Text { text: self.text.clone() }];
        assert(parts_of(content@) =~= seq![PartView::Text(self.text@)]);
        StreamEvent::Done {
            content,
            tool_calls: build_stream_tool_calls(self.calls.as_slice()),
            usage: self.usage,
            stop_reason: self.finish_reason.clone(),
        }
    }

    fn add_pieces(&mut self, pieces: &Vec<OpenAiToolCallDelta>)
        ensures
            final(self)@ == (AnswerView {
                calls: after_pieces(old(self)@.calls, deltas_of(pieces@)),
                ..old(self)@
            }),
            final(self).buffer == old(self).buffer,
    {
        let ghost all = deltas_of(pieces@);
        let ghost before = self@;
        let mut i: usize = 0;
        assert(all.take(0) =~= Seq::empty());
        while i < pieces.len()
            invariant
                i <= pieces@.len(),
                all == deltas_of(pieces@),
                before == old(self)@,
                self.buffer == old(self).buffer,
                self@ == (AnswerView {
                    calls: after_pieces(before.calls, all.take(i as int)),
                    ..before
                }),
            decreases pieces@.len() - i,
        {
            assert(all.take(i + 1).drop_last() =~= all.take(i as int));
            assert(all.take(i + 1).last() == pieces@[i as int]@);
            add_piece(&mut self.calls, &pieces[i]);
            i = i + 1;
        }
        assert(all.take(all.len() as int) =~= all);
    }

    /// Takes a chunk of the answer.
    fn on_chunk(&mut self, chunk: OpenAiStreamChunk) -> (events: Vec<StreamEvent>)
        ensures
            final(self)@ == after_chunk(old(self)@, chunk@),
            final(self).buffer == old(self).buffer,
            events_of(events@) == chunk_events(chunk@),
    {
        let mut events: Vec<StreamEvent> = Vec::new();
        assert(events_of(events@) =~= Seq::empty());
        if let Some(u) = chunk.usage {
            if u.prompt_tokens > 0 || u.completion_tokens > 0 {
                self.usage = openai_usage(Some(u));
            }
        }
        if chunk.choices.len() == 0 {
            return events;
        }
        let choice = &chunk.choices[0];
        assert(chunk@.choices[0] == choice@);
        let ghost before = self@;
        match &choice.content {
            Some(text) => {
                self.text.append(text.as_str());
                let content: Vec<ContentPart> = vec![ContentPart::Text { text: text.clone() }];
                assert(parts_of(content@) =~= seq![PartView::Text(text@)]);
                events.push(StreamEvent::Delta { content, usage: None });
                assert(events_of(events@) =~= chunk_events(chunk@));
            },
            None => {
                assert(before.text + Seq::<char>::empty() =~= before.text);
            },
        }
        self.add_pieces(&choice.tool_calls);
        if let Some(reason) = &choice.finish_reason {
            self.finish_reason = reason.clone();
        }
        events
    }

    /// Takes a payload, read as a chunk where it is one, and gives its events.
    pub fn on_payload(&mut self, data: &str, chunk: Option<OpenAiStreamChunk>) -> (events: Vec<
        StreamEvent,
    >)
        ensures
            final(self)@ == after_payload(old(self)@, data@, opt_chunk(chunk)),
            final(self).buffer == old(self).buffer,
            events_of(events@) == payload_events(old(self)@, data@, opt_chunk(chunk)),
    {
        let mut events: Vec<StreamEvent> = Vec::new();
        assert(events_of(events@) =~= Seq::empty());
        if self.done {
            return events;
        }
        if is_done(data) {
            let event = self.done_now();
            let ghost view = event@;
            events.push(event);
            assert(events_of(events@) =~= seq![view]);
            self.done = true;
            return events;
        }
        match chunk {
            Some(chunk) => self.on_chunk(chunk),
            None => events,
        }
    }

    /// What may be an answer in one piece, at the end of a stream.
    pub fn maybe_whole(&self) -> (text: Option<&str>)
        ensures
            match text {
                Some(text) => may_be_whole(self@, self.buffer.text@) && text@ == self.buffer.text@,
                None => !may_be_whole(self@, self.buffer.text@),
            },
    {
        assert(self@.calls.len() == self.calls@.len());
        if self.text.as_str().unicode_len() == 0 && self.calls.len() == 0
            && self.buffer.text.as_str().unicode_len() > 0 {
            Some(self.buffer.text.as_str())
        } else {
            None
        }
    }

    /// The events at the end of a stream that did not announce it. `whole` is
    /// the answer that its remains are, if they are one.
    pub fn on_end(&self, whole: Option<OpenAiChatResponse>) -> (events: Vec<StreamEvent>)
        ensures
            events_of(events@) == end_events(self@, self.buffer.text@, opt_reply(whole)),
    {
        let mut events: Vec<StreamEvent> = Vec::new();
        if let Some(reply) = whole {
            assert(choices_of(reply.choices@).len() == reply.choices@.len());
            if self.maybe_whole().is_some() && reply.choices.len() > 0 {
                let usage = openai_usage(reply.usage);
                let mut choices = reply.choices;
                assert(choices_of(reply.choices@)[0] == reply.choices@[0]@);
                let choice = choices.swap_remove(0);
                let (parts, calls) = extract_openai_response(
                    choice.message.content,
                    choice.message.tool_calls,
                );
                let stop_reason = or_empty(choice.finish_reason);
                let content = crate::models::copy_parts(&parts);
                events.push(StreamEvent::Delta { content, usage: Some(usage) });
                events.push(
                    StreamEvent::Done { content: parts, tool_calls: calls, usage, stop_reason },
                );
                assert(events_of(events@) =~= end_events(
                    self@,
                    self.buffer.text@,
                    opt_reply(whole),
                ));
                return events;
            }
        }
        let event = self.done_now();
        let ghost view = event@;
        events.push(event);
        assert(events_of(events@) =~= seq![view]);
        events
    }
}

/// The events that make an answer in one piece look like a stream.
pub fn whole_answer_events(reply: OpenAiChatResponse) -> (events: Vec<StreamEvent>)
    ensures
        events_of(events@) == whole_answer(choices_of(reply.choices@), reply.usage),
{
    let usage = openai_usage(reply.usage);
    assert(choices_of(reply.choices@).len() == reply.choices@.len());
    let mut choices = reply.choices;
    let content = if choices.len() > 0 {
        assert(choices_of(reply.choices@)[0] == reply.choices@[0]@);
        let choice = choices.swap_remove(0);
        merge_openai_text(choice.message.content)
    } else {
        merge_openai_text(None)
    };
    let mut events: Vec<StreamEvent> = Vec::new();
    let first = crate::models::copy_parts(&content);
    events.push(StreamEvent::Delta { content: first, usage: Some(usage) });
    let calls: Vec<ToolCall> = Vec::new();
    assert(calls_of(calls@) =~= Seq::empty());
    events.push(
        StreamEvent::Done { content, tool_calls: calls, usage, stop_reason: String::new() },
    );
    assert(events_of(events@) =~= whole_answer(choices_of(reply.choices@), reply.usage));
    events
}

/// What came of asking for the answer in one piece.
pub enum WholeReply {
    Answer(OpenAiChatResponse),
    /// The reply is not an answer, for this reason.
    Unreadable(String),
    /// The upstream refused, with this body.
    Refused(String),
    /// The request did not get there, for this reason.
    NotSent(String),
}

/// Whether a refused stream is worth asking for the answer in one piece: not
/// where the key is at fault.
pub open spec fn worth_asking_again(status: u16) -> bool {
    status != 401 && status != 403
}

/// Whether a refused stream is worth asking for the answer in one piece.
pub fn asks_again(status: u16) -> (b: bool)
    ensures
        b == worth_asking_again(status),
{
    status != 401 && status != 403
}

/// The events where a stream was refused and not asked for again.
pub fn refused_events(status: u16, body: String) -> (events: Vec<StreamEvent>)
    ensures
        events_of(events@) == seq![EventView::HttpError { status, message: body@ }],
{
    let ghost text = body@;
    let events: Vec<StreamEvent> = vec![StreamEvent::HttpError { status, message: body }];
    assert(events_of(events@) =~= seq![EventView::HttpError { status, message: text }]);
    events
}

/// The events where a stream was refused, and then the answer asked for in one
/// piece.
pub open spec fn second_try(status: u16, body: Seq<char>, reply: WholeReply) -> Seq<EventView> {
    match reply {
        WholeReply::Answer(answer) => whole_answer(choices_of(answer.choices@), answer.usage),
        WholeReply::Unreadable(e) => seq![EventView::Error("Parse error: "@ + e@)],
        WholeReply::Refused(b) => seq![
            EventView::HttpError { status, message: body + "; non-stream also failed: "@ + b@ },
        ],
        WholeReply::NotSent(e) => seq![
            EventView::HttpError { status, message: body + "; fallback failed: "@ + e@ },
        ],
    }
}

/// The events where a stream was refused, and then the answer asked for in one
/// piece.
pub fn second_try_events(status: u16, body: &str, reply: WholeReply) -> (events: Vec<StreamEvent>)
    ensures
        events_of(events@) == second_try(status, body@, reply),
{
    let event = match reply {
        WholeReply::Answer(answer) => {
            return whole_answer_events(answer);
        },
        WholeReply::Unreadable(e) => StreamEvent::Error(concat("Parse error: ", e.as_str())),
        WholeReply::Refused(b) => {
            let mut message = concat(body, "; non-stream also failed: ");
            message.append(b.as_str());
            StreamEvent::HttpError { status, message }
        },
        WholeReply::NotSent(e) => {
            let mut message = concat(body, "; fallback failed: ");
            message.append(e.as_str());
            StreamEvent::HttpError { status, message }
        },
    };
    let ghost view = event@;
    let events: Vec<StreamEvent> = vec![event];
    assert(events_of(events@) =~= seq![view]);
    events
}

/// The events where a stream broke off, and then the answer was asked for in one
/// piece.
pub open spec fn after_break(error: Seq<char>, reply: WholeReply) -> Seq<EventView> {
    match reply {
        WholeReply::Answer(answer) => whole_answer(choices_of(answer.choices@), answer.usage),
        _ => seq![EventView::Error("Stream broken: "@ + error)],
    }
}

/// The events where a stream broke off, and then the answer was asked for in one
/// piece.
pub fn broken_events(error: &str, reply: WholeReply) -> (events: Vec<StreamEvent>)
    ensures
        events_of(events@) == after_break(error@, reply),
{
    match reply {
        WholeReply::Answer(answer) => whole_answer_events(answer),
        _ => {
            let event = StreamEvent::Error(concat("Stream broken: ", error));
            let ghost view = event@;
            let events: Vec<StreamEvent> = vec![event];
            assert(events_of(events@) =~= seq![view]);
            events
        },
    }
}

/// The texts that events tell, one behind the other.
pub open spec fn told_by(events: Seq<EventView>) -> Seq<char>
    decreases events.len(),
{
    if events.len() == 0 {
        Seq::empty()
    } else {
        match events.last() {
            EventView::Delta { content, .. } => told_by(events.drop_last()) + text_in(content),
            _ => told_by(events.drop_last()),
        }
    }
}

/// An answer with more chunks.
pub open spec fn after_chunks(answer: AnswerView, chunks: Seq<ChunkView>) -> AnswerView
    decreases chunks.len(),
{
    if chunks.len() == 0 {
        answer
    } else {
        after_chunk(after_chunks(answer, chunks.drop_last()), chunks.last())
    }
}

/// The events that chunks give.
pub open spec fn all_events(chunks: Seq<ChunkView>) -> Seq<EventView>
    decreases chunks.len(),
{
    if chunks.len() == 0 {
        Seq::empty()
    } else {
        all_events(chunks.drop_last()) + chunk_events(chunks.last())
    }
}

/// The text of the whole answer is what the events on the way told, one behind
/// the other.
pub proof fn answer_is_what_was_told(chunks: Seq<ChunkView>)
    ensures
        after_chunks(no_answer(), chunks).text == told_by(all_events(chunks)),
    decreases chunks.len(),
{
    if chunks.len() > 0 {
        answer_is_what_was_told(chunks.drop_last());
        let before = all_events(chunks.drop_last());
        let new = chunk_events(chunks.last());
        let text = told_by(before);
        if new.len() > 0 {
            assert((before + new).drop_last() =~= before);
            let told = chunks.last().choices[0].content->0;
            let content = seq![PartView::Text(told)];
            assert(content.drop_last() =~= Seq::empty());
            reveal_with_fuel(text_in, 2);
            assert(text_in(content) =~= told);
        } else {
            assert(before + new =~= before);
            assert(text + Seq::<char>::empty() =~= text);
        }
    }
}

/// The arguments in the pieces of one call, one behind the other.
pub open spec fn arguments_for(pieces: Seq<CallDeltaView>, index: nat) -> Seq<char>
    decreases pieces.len(),
{
    if pieces.len() == 0 {
        Seq::empty()
    } else if pieces.last().index == index {
        arguments_for(pieces.drop_last(), index) + text_or_empty(pieces.last().arguments)
    } else {
        arguments_for(pieces.drop_last(), index)
    }
}

/// The arguments of a call are those of its own pieces, in the order in which
/// they came, whatever came between them.
pub proof fn arguments_come_from_the_pieces_of_a_call(
    calls: Seq<AccumView>,
    pieces: Seq<CallDeltaView>,
    index: nat,
)
    ensures
        ({
            let after = after_pieces(calls, pieces);
            let start = if index < calls.len() {
                calls[index as int].arguments
            } else {
                Seq::empty()
            };
            &&& after.len() >= calls.len()
            &&& index < after.len() ==> after[index as int].arguments == start + arguments_for(
                pieces,
                index,
            )
            &&& index >= after.len() ==> arguments_for(pieces, index) == Seq::<char>::empty()
        }),
    decreases pieces.len(),
{
    let start = if index < calls.len() {
        calls[index as int].arguments
    } else {
        Seq::<char>::empty()
    };
    assert(start + Seq::<char>::empty() =~= start);
    if pieces.len() > 0 {
        arguments_come_from_the_pieces_of_a_call(calls, pieces.drop_last(), index);
        let before = after_pieces(calls, pieces.drop_last());
        let piece = pieces.last();
        let so_far = arguments_for(pieces.drop_last(), index);
        let new = text_or_empty(piece.arguments);
        assert((start + so_far) + new =~= start + (so_far + new));
        if index >= before.len() {
            assert(start + so_far =~= Seq::empty());
        }
    }
}

} // verus!
