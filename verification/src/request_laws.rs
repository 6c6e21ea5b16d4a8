//! What a request asks for, in terms of the chat and its parameters.
use crate::cache::{
    anthropic_at_end, at_end, at_head, bearers, carriers, count_set, last_bearer, last_text, leads,
    lemma_last_bearer, lemma_last_text, marked_messages, marked_request,
};
use crate::client::{
    anthropic_messages, anthropic_request, no_key_text, openai_content, openai_message,
    openai_request, output_limit, spoken, system_prompt, system_texts,
};
use crate::json::printed;
use crate::models::{texts_among, MessageView, Model, PartView, Role, ToolChoiceView};
use crate::params::{ParamsView, ThinkingBudget};
use crate::text::joined;
use crate::wire::{
    base64_text, AnthropicCacheControl, AnthropicChoiceView, AnthropicMessageView,
    AnthropicRequestView, BlockView, OpenAiChoiceView, OpenAiContentView, OpenAiMessageView,
    OpenAiPartView, SystemBlockView,
};
use vstd::prelude::*;

verus! {

/// Each message of a chat goes to the OpenAI API in its place, under its role,
/// with the id of the call that it answers and with its own tool calls.
pub proof fn messages_keep_their_roles(
    model: Model,
    messages: Seq<MessageView>,
    params: ParamsView,
    stream: bool,
    include_usage: bool,
    i: int,
)
    requires
        0 <= i < messages.len(),
    ensures
        ({
            let out = openai_request(model, messages, params, stream, include_usage).messages;
            &&& out.len() == messages.len()
            &&& out[i].role == messages[i].role
            &&& out[i].tool_call_id == messages[i].tool_call_id
            &&& messages[i].tool_calls is None ==> out[i].tool_calls is None
            &&& messages[i].tool_calls is Some ==> {
                &&& out[i].tool_calls is Some
                &&& out[i].tool_calls->0.len() == messages[i].tool_calls->0.len()
                &&& forall|k: int|
                    0 <= k < messages[i].tool_calls->0.len() ==> {
                        let call = messages[i].tool_calls->0[k];
                        let sent = #[trigger] out[i].tool_calls->0[k];
                        &&& sent.id == call.id
                        &&& sent.name == call.name
                        &&& sent.type_ == Some("function"@)
                        &&& call.arguments_raw is Some ==> sent.arguments == call.arguments_raw->0
                        &&& call.arguments_raw is None ==> sent.arguments == printed(
                            call.arguments,
                        )
                    }
            }
        }),
{
}

/// What a message says goes to the OpenAI API piece by piece: the outcome of a
/// tool as one text, its texts on lines of their own; anything else in its
/// pieces without empty texts, a picture as its address; and a message with
/// nothing to say, which calls no tool, as a blank.
pub proof fn messages_keep_their_content(
    model: Model,
    messages: Seq<MessageView>,
    params: ParamsView,
    stream: bool,
    include_usage: bool,
    i: int,
)
    requires
        0 <= i < messages.len(),
    ensures
        ({
            let out = openai_request(model, messages, params, stream, include_usage).messages;
            let said = spoken(messages[i].content);
            match out[i].content {
                OpenAiContentView::ToolString(text) => {
                    &&& messages[i].role == Role::Tool
                    &&& text == joined(texts_among(messages[i].content), "\n"@)
                },
                OpenAiContentView::Parts(parts) => {
                    &&& messages[i].role != Role::Tool
                    &&& said.len() == 0 && messages[i].tool_calls is None ==> {
                        &&& parts.len() == 1
                        &&& parts[0] is Text
                        &&& parts[0]->text == " "@
                    }
                    &&& said.len() > 0 || messages[i].tool_calls is Some ==> {
                        &&& parts.len() == said.len()
                        &&& forall|k: int|
                            0 <= k < said.len() ==> match said[k] {
                                PartView::Text(text) => (#[trigger] parts[k]) is Text
                                    && parts[k]->text == text,
                                PartView::Image { media_type, data } => parts[k]
                                    == (OpenAiPartView::ImageUrl {
                                    url: "data:"@ + media_type + ";base64,"@ + base64_text(data),
                                }),
                            }
                    }
                    &&& !model.prompt_cache ==> forall|k: int|
                        0 <= k < parts.len() && (#[trigger] parts[k]) is Text
                            ==> parts[k]->cache_control is None
                },
            }
        }),
{
    let plain = openai_content(messages[i]);
    if let OpenAiContentView::Parts(parts) = plain {
        lemma_last_text(parts);
    }
}

/// The pieces that a message says are its pieces, in order, without empty texts.
pub proof fn empty_texts_are_left_out(a: Seq<PartView>, b: Seq<PartView>, part: PartView)
    ensures
        spoken(a + b) == spoken(a) + spoken(b),
        spoken(Seq::empty()).len() == 0,
        part is Text && part->Text_0.len() == 0 ==> spoken(seq![part]).len() == 0,
        part is Text && part->Text_0.len() > 0 ==> spoken(seq![part]) == seq![part],
        part is Image ==> spoken(seq![part]) == seq![part],
    decreases b.len(),
{
    let one = seq![part];
    assert(one.drop_last() =~= Seq::empty());
    assert(spoken(one.drop_last()) =~= Seq::empty());
    if part is Text && part->Text_0.len() == 0 {
        assert(part->Text_0 =~= Seq::empty());
    }
    if spoken(one).len() > 0 {
        assert(spoken(one) =~= seq![part]);
    }
    if b.len() == 0 {
        assert(a + b =~= a);
        assert(spoken(a) + spoken(b) =~= spoken(a));
    } else {
        assert((a + b).drop_last() =~= a + b.drop_last());
        empty_texts_are_left_out(a, b.drop_last(), part);
        assert(spoken(a + b) =~= spoken(a) + spoken(b));
    }
}

/// A request to the OpenAI API asks for what the parameters ask for: each one
/// under its own name, tools one for one, a choice of tools only where there are
/// tools or it is not left to the model, and the cost of a streamed answer only
/// of a streamed one.
pub proof fn openai_request_asks_for_what_is_wanted(
    model: Model,
    messages: Seq<MessageView>,
    params: ParamsView,
    stream: bool,
    include_usage: bool,
)
    ensures
        ({
            let req = openai_request(model, messages, params, stream, include_usage);
            &&& req.model == model.id@
            &&& req.temperature == params.temperature
            &&& req.top_p == params.top_p
            &&& req.top_k == params.top_k
            &&& req.min_p == params.min_p
            &&& req.presence_penalty == params.presence_penalty
            &&& req.frequency_penalty == params.frequency_penalty
            &&& req.repetition_penalty == params.repetition_penalty
            &&& req.stop == params.stop_sequences
            &&& req.seed == params.seed
            &&& req.prompt_cache_key == params.prompt_cache_key
            &&& req.stream == stream
            &&& req.include_usage == (stream && include_usage)
            &&& params.tools.len() == 0 ==> req.parallel_tool_calls is None
            &&& params.tools.len() > 0 ==> req.parallel_tool_calls == params.parallel_tool_calls
            &&& req.tools.len() == params.tools.len()
            &&& forall|k: int|
                0 <= k < params.tools.len() ==> {
                    &&& (#[trigger] req.tools[k]).name == params.tools[k].name
                    &&& req.tools[k].description == params.tools[k].description
                    &&& req.tools[k].parameters == params.tools[k].parameters
                    &&& req.tools[k].strict == params.tools[k].strict
                }
            &&& params.tools.len() == 0 && params.tool_choice is Auto ==> req.tool_choice is None
            &&& params.tools.len() > 0 || !(params.tool_choice is Auto) ==> req.tool_choice
                == Some(
                match params.tool_choice {
                    ToolChoiceView::Auto => OpenAiChoiceView::Keyword("auto"@),
                    ToolChoiceView::Never => OpenAiChoiceView::Keyword("none"@),
                    ToolChoiceView::Required => OpenAiChoiceView::Keyword("required"@),
                    ToolChoiceView::Specific(name) => OpenAiChoiceView::Specific(name),
                },
            )
        }),
{
}

/// The limit that goes out is the one that is asked for, and where none is, that
/// of the model; a limit of nothing, or to a model that takes none, is no limit.
pub proof fn limit_is_the_one_asked_for(explicit: Option<u32>, model: Model)
    ensures
        model.omit_max_tokens ==> output_limit(explicit, model) is None,
        !model.omit_max_tokens && explicit is Some && explicit->0 > 0 ==> output_limit(
            explicit,
            model,
        ) == explicit,
        explicit is Some && explicit->0 == 0 ==> output_limit(explicit, model) is None,
        !model.omit_max_tokens && explicit is None && model.max_tokens > 0 ==> output_limit(
            explicit,
            model,
        ) == Some(model.max_tokens),
        explicit is None && model.max_tokens == 0 ==> output_limit(explicit, model) is None,
{
}

/// A request to the Anthropic API asks for what the parameters ask for. It has to
/// name a limit, so it names 4096 where there is none.
pub proof fn anthropic_request_asks_for_what_is_wanted(
    model: Model,
    messages: Seq<MessageView>,
    params: ParamsView,
)
    ensures
        ({
            let req = anthropic_request(model, messages, params);
            &&& req.model == model.id@
            &&& req.temperature == params.temperature
            &&& req.top_p == params.top_p
            &&& req.top_k == params.top_k
            &&& req.stop_sequences == params.stop_sequences
            &&& model.omit_max_tokens ==> req.max_tokens == 4096
            &&& !model.omit_max_tokens && params.max_tokens is Some && params.max_tokens->0 > 0
                ==> req.max_tokens == params.max_tokens->0
            &&& params.max_tokens is Some && params.max_tokens->0 == 0 ==> req.max_tokens == 4096
            &&& !model.omit_max_tokens && params.max_tokens is None && model.max_tokens > 0
                ==> req.max_tokens == model.max_tokens
            &&& params.max_tokens is None && model.max_tokens == 0 ==> req.max_tokens == 4096
            &&& req.thinking_tokens == (match params.thinking_budget {
                None => None,
                Some(ThinkingBudget::Minimal) => Some(1024u32),
                Some(ThinkingBudget::Low) => Some(2048u32),
                Some(ThinkingBudget::Medium) => Some(8192u32),
                Some(ThinkingBudget::High) => Some(16384u32),
                Some(ThinkingBudget::XHigh) => Some(32768u32),
                Some(ThinkingBudget::Custom(n)) => Some(n),
            })
            &&& req.tools.len() == params.tools.len()
            &&& forall|k: int|
                0 <= k < params.tools.len() ==> {
                    &&& (#[trigger] req.tools[k]).name == params.tools[k].name
                    &&& req.tools[k].description == params.tools[k].description
                    &&& req.tools[k].input_schema == params.tools[k].parameters
                    &&& (req.tools[k].cache_control is Some <==> k == params.tools.len() - 1)
                }
            &&& params.tools.len() == 0 && params.tool_choice is Auto ==> req.tool_choice is None
            &&& params.tools.len() > 0 || !(params.tool_choice is Auto) ==> req.tool_choice == (
            match params.tool_choice {
                ToolChoiceView::Auto => Some(AnthropicChoiceView::Auto),
                ToolChoiceView::Required => Some(AnthropicChoiceView::Any),
                ToolChoiceView::Specific(name) => Some(AnthropicChoiceView::Tool(name)),
                ToolChoiceView::Never => None,
            })
        }),
{
}

/// The system prompt for the Anthropic API is made of the texts of the system
/// messages, in order and without empty ones, and nothing else; its last block is
/// marked.
pub proof fn system_prompt_is_read_in_order(
    a: Seq<MessageView>,
    b: Seq<MessageView>,
    message: MessageView,
)
    ensures
        system_prompt(a + b) == system_prompt(a) + system_prompt(b),
        system_prompt(Seq::empty()).len() == 0,
        message.role != Role::System ==> system_prompt(seq![message]).len() == 0,
        message.role == Role::System && message.content.len() == 0 ==> system_prompt(
            seq![message],
        ).len() == 0,
        message.role == Role::System && message.content.len() == 1 ==> system_prompt(
            seq![message],
        ) == (match message.content[0] {
            PartView::Text(text) if text.len() > 0 => seq![
                SystemBlockView { text, cache_control: None },
            ],
            _ => Seq::empty(),
        }),
    decreases b.len(),
{
    let one = seq![message];
    assert(one.drop_last() =~= Seq::empty());
    assert(system_prompt(one.drop_last()) =~= Seq::empty());
    if message.role == Role::System {
        assert(system_prompt(one) =~= system_texts(message.content));
        if message.content.len() == 1 {
            assert(message.content.drop_last() =~= Seq::empty());
            assert(system_texts(message.content.drop_last()) =~= Seq::empty());
        }
    }
    if b.len() == 0 {
        assert(a + b =~= a);
        assert(system_prompt(a) + system_prompt(b) =~= system_prompt(a));
    } else {
        assert((a + b).drop_last() =~= a + b.drop_last());
        system_prompt_is_read_in_order(a, b.drop_last(), message);
        assert(system_prompt(a + b) =~= system_prompt(a) + system_prompt(b));
    }
}

/// The texts of a system message are read one behind the other.
pub proof fn system_texts_are_read_in_order(a: Seq<PartView>, b: Seq<PartView>)
    ensures
        system_texts(a + b) == system_texts(a) + system_texts(b),
    decreases b.len(),
{
    if b.len() == 0 {
        assert(a + b =~= a);
        assert(system_texts(a) + system_texts(b) =~= system_texts(a));
    } else {
        assert((a + b).drop_last() =~= a + b.drop_last());
        system_texts_are_read_in_order(a, b.drop_last());
        assert(system_texts(a + b) =~= system_texts(a) + system_texts(b));
    }
}

/// The messages for the Anthropic API are those of the chat, in order, without
/// system messages: those of the assistant are from the model and others are not.
/// The outcome of a tool is one block that names the call, and anything else goes
/// in its pieces, or as a blank where it says nothing.
pub proof fn anthropic_messages_are_read_in_order(
    a: Seq<MessageView>,
    b: Seq<MessageView>,
    message: MessageView,
)
    ensures
        anthropic_messages(a + b) == anthropic_messages(a) + anthropic_messages(b),
        anthropic_messages(Seq::empty()).len() == 0,
        message.role == Role::System ==> anthropic_messages(seq![message]).len() == 0,
        message.role != Role::System ==> {
            let out = anthropic_messages(seq![message]);
            let blocks = out[0].content;
            let said = spoken(message.content);
            &&& out.len() == 1
            &&& out[0].from_model == (message.role == Role::Assistant)
            &&& message.role == Role::Tool ==> {
                &&& blocks.len() == 1
                &&& match blocks[0] {
                    BlockView::ToolResult { tool_use_id, content, is_error, cache_control } => {
                        &&& message.tool_call_id is Some ==> tool_use_id == message.tool_call_id->0
                        &&& message.tool_call_id is None ==> tool_use_id.len() == 0
                        &&& content == joined(texts_among(message.content), "\n"@)
                        &&& is_error is None
                        &&& cache_control is None
                    },
                    _ => false,
                }
            }
            &&& message.role != Role::Tool && said.len() == 0 ==> blocks == seq![
                BlockView::Text { text: " "@, cache_control: None },
            ]
            &&& message.role != Role::Tool && said.len() > 0 ==> {
                &&& blocks.len() == said.len()
                &&& forall|k: int|
                    0 <= k < said.len() ==> #[trigger] blocks[k] == (match said[k] {
                        PartView::Text(text) => BlockView::Text { text, cache_control: None },
                        PartView::Image { media_type, data } => BlockView::Image {
                            media_type,
                            data: base64_text(data),
                        },
                    })
            }
        },
    decreases b.len(),
{
    let one = seq![message];
    assert(one.drop_last() =~= Seq::empty());
    assert(anthropic_messages(one.drop_last()) =~= Seq::empty());
    if b.len() == 0 {
        assert(a + b =~= a);
        assert(anthropic_messages(a) + anthropic_messages(b) =~= anthropic_messages(a));
    } else {
        assert((a + b).drop_last() =~= a + b.drop_last());
        anthropic_messages_are_read_in_order(a, b.drop_last(), message);
        assert(anthropic_messages(a + b) =~= anthropic_messages(a) + anthropic_messages(b));
    }
}

/// Texts are joined with the separator between each and the next, and only there.
pub proof fn joined_texts_stand_in_order(
    list: Seq<Seq<char>>,
    text: Seq<char>,
    separator: Seq<char>,
)
    ensures
        joined(Seq::empty(), separator).len() == 0,
        joined(seq![text], separator) == text,
        list.len() > 0 ==> joined(list.push(text), separator) == joined(list, separator)
            + separator + text,
{
    assert(list.push(text).drop_last() =~= list);
}

// ---------------------------------------------------------------------------
// Marks for the prompt cache

/// Whether a message of the OpenAI API has a text among its pieces.
pub open spec fn has_text(message: OpenAiMessageView) -> bool {
    message.content is Parts && exists|p: int|
        0 <= p < message.content->Parts_0.len() && (#[trigger] message.content->Parts_0[p]) is Text
}

/// Whether two of the messages between these places have a text.
pub open spec fn two_have_text(messages: Seq<OpenAiMessageView>, from: int, to: int) -> bool {
    exists|j: int, k: int|
        from <= j < k < to && has_text(#[trigger] messages[j]) && has_text(#[trigger] messages[k])
}

/// Whether a message is another one with a mark on its last text, and on no other
/// that had none.
pub open spec fn is_marked_form(marked: OpenAiMessageView, message: OpenAiMessageView) -> bool {
    &&& marked.role == message.role
    &&& marked.tool_call_id == message.tool_call_id
    &&& marked.tool_calls == message.tool_calls
    &&& marked.content is Parts
    &&& message.content is Parts
    &&& exists|p: int| #[trigger]
        is_last_text(message.content->Parts_0, p) && marked.content->Parts_0
            == message.content->Parts_0.update(
            p,
            OpenAiPartView::Text {
                text: message.content->Parts_0[p]->text,
                cache_control: Some(AnthropicCacheControl::Ephemeral),
            },
        )
}

/// Whether the last text among pieces stands at this place.
pub open spec fn is_last_text(parts: Seq<OpenAiPartView>, p: int) -> bool {
    &&& 0 <= p < parts.len()
    &&& parts[p] is Text
    &&& forall|q: int| p < q < parts.len() ==> !((#[trigger] parts[q]) is Text)
}

proof fn lemma_has_text(message: OpenAiMessageView)
    ensures
        crate::cache::markable(message.content) == has_text(message),
        crate::cache::markable(message.content) ==> is_last_text(
            message.content->Parts_0,
            last_text(message.content->Parts_0)->0,
        ),
{
    if message.content is Parts {
        lemma_last_text(message.content->Parts_0);
    }
}

proof fn lemma_two_set(flags: Seq<bool>, from: int, to: int)
    requires
        0 <= from,
        to <= flags.len(),
    ensures
        count_set(flags, from, to) >= 1 <==> exists|j: int| from <= j < to && #[trigger] flags[j],
        count_set(flags, from, to) >= 2 <==> exists|j: int, k: int|
            from <= j < k < to && #[trigger] flags[j] && #[trigger] flags[k],
    decreases to - from,
{
    if from < to {
        lemma_two_set(flags, from, to - 1);
        if flags[to - 1] && count_set(flags, from, to - 1) >= 1 {
            let j = choose|j: int| from <= j < to - 1 && #[trigger] flags[j];
            assert(from <= j < to - 1 < to && flags[j] && flags[to - 1]);
        }
    }
}

/// A request to the OpenAI API gets marks at both of its ends: on the first two
/// messages with a text among the system messages that lead it, and on the last
/// two messages with a text. A mark stands on the last text of its message, and
/// all else stays as it is.
pub proof fn marks_stand_at_both_ends(messages: Seq<OpenAiMessageView>, j: int)
    requires
        0 <= j < messages.len(),
    ensures
        marked_messages(messages).len() == messages.len(),
        ({
            let wanted = has_text(messages[j]) && (!two_have_text(
                messages,
                j + 1,
                messages.len() as int,
            ) || !two_have_text(messages, 0, j) && forall|k: int|
                0 <= k <= j ==> (#[trigger] messages[k]).role == Role::System);
            &&& wanted ==> is_marked_form(marked_messages(messages)[j], messages[j])
            &&& !wanted ==> marked_messages(messages)[j] == messages[j]
        }),
{
    let flags = carriers(messages);
    assert forall|k: int| 0 <= k < messages.len() implies #[trigger] flags[k] == has_text(
        messages[k],
    ) by {
        lemma_has_text(messages[k]);
    }
    lemma_has_text(messages[j]);
    lemma_two_texts(messages, j + 1, messages.len() as int);
    lemma_two_texts(messages, 0, j);
    assert(leads(messages, j) == forall|k: int|
        0 <= k <= j ==> (#[trigger] messages[k]).role == Role::System);
    if at_head(messages, j) || at_end(messages, j) {
        let p = last_text(messages[j].content->Parts_0)->0;
        assert(is_last_text(messages[j].content->Parts_0, p));
    }
}

proof fn lemma_two_texts(messages: Seq<OpenAiMessageView>, from: int, to: int)
    requires
        0 <= from,
        to <= messages.len(),
    ensures
        count_set(carriers(messages), from, to) >= 2 <==> two_have_text(messages, from, to),
{
    let flags = carriers(messages);
    assert forall|k: int| 0 <= k < messages.len() implies #[trigger] flags[k] == has_text(
        messages[k],
    ) by {
        lemma_has_text(messages[k]);
    }
    lemma_two_set(flags, from, to);
    if count_set(flags, from, to) >= 2 {
        let (j, k) = choose|j: int, k: int|
            from <= j < k < to && #[trigger] flags[j] && #[trigger] flags[k];
        assert(has_text(messages[j]) && has_text(messages[k]));
    }
    if two_have_text(messages, from, to) {
        let (j, k) = choose|j: int, k: int|
            from <= j < k < to && has_text(#[trigger] messages[j]) && has_text(
                #[trigger] messages[k],
            );
        assert(flags[j] && flags[k]);
    }
}

/// Only a model that takes marks gets them.
pub proof fn marks_go_to_models_that_take_them(
    model: Model,
    messages: Seq<MessageView>,
    params: ParamsView,
    stream: bool,
    include_usage: bool,
)
    ensures
        ({
            let out = openai_request(model, messages, params, stream, include_usage).messages;
            let plain = messages.map_values(|m: MessageView| openai_message(m));
            &&& model.prompt_cache ==> out == marked_messages(plain)
            &&& !model.prompt_cache ==> out == plain
        }),
{
}

/// Whether a block can bear a mark.
pub open spec fn bears(block: BlockView) -> bool {
    block is Text || block is ToolResult
}

/// Whether the last block that can bear a mark stands at this place.
pub open spec fn is_last_bearer(blocks: Seq<BlockView>, p: int) -> bool {
    &&& 0 <= p < blocks.len()
    &&& bears(blocks[p])
    &&& forall|q: int| p < q < blocks.len() ==> !bears(#[trigger] blocks[q])
}

/// Whether a message of the Anthropic API has a block that can bear a mark.
pub open spec fn has_bearer(message: AnthropicMessageView) -> bool {
    exists|p: int| 0 <= p < message.content.len() && bears(#[trigger] message.content[p])
}

/// Whether two of the messages between these places can bear a mark.
pub open spec fn two_can_bear(messages: Seq<AnthropicMessageView>, from: int, to: int) -> bool {
    exists|j: int, k: int|
        from <= j < k < to && has_bearer(#[trigger] messages[j]) && has_bearer(
            #[trigger] messages[k],
        )
}

/// Whether a block is another one with a mark.
pub open spec fn is_marked_block(marked: BlockView, block: BlockView) -> bool {
    match block {
        BlockView::Text { text, .. } => marked == (BlockView::Text {
            text,
            cache_control: Some(AnthropicCacheControl::Ephemeral),
        }),
        BlockView::ToolResult { tool_use_id, content, is_error, .. } => marked == (
        BlockView::ToolResult {
            tool_use_id,
            content,
            is_error,
            cache_control: Some(AnthropicCacheControl::Ephemeral),
        }),
        _ => false,
    }
}

proof fn lemma_has_bearer(message: AnthropicMessageView)
    ensures
        last_bearer(message.content) is Some == has_bearer(message),
        last_bearer(message.content) is Some ==> is_last_bearer(
            message.content,
            last_bearer(message.content)->0,
        ),
{
    lemma_last_bearer(message.content);
}

proof fn lemma_two_bearers(messages: Seq<AnthropicMessageView>, from: int, to: int)
    requires
        0 <= from,
        to <= messages.len(),
    ensures
        count_set(bearers(messages), from, to) >= 2 <==> two_can_bear(messages, from, to),
{
    let flags = bearers(messages);
    assert forall|k: int| 0 <= k < messages.len() implies #[trigger] flags[k] == has_bearer(
        messages[k],
    ) by {
        lemma_has_bearer(messages[k]);
    }
    lemma_two_set(flags, from, to);
    if count_set(flags, from, to) >= 2 {
        let (j, k) = choose|j: int, k: int|
            from <= j < k < to && #[trigger] flags[j] && #[trigger] flags[k];
        assert(has_bearer(messages[j]) && has_bearer(messages[k]));
    }
    if two_can_bear(messages, from, to) {
        let (j, k) = choose|j: int, k: int|
            from <= j < k < to && has_bearer(#[trigger] messages[j]) && has_bearer(
                #[trigger] messages[k],
            );
        assert(flags[j] && flags[k]);
    }
}

/// A request to the Anthropic API gets marks on its last tool, on the last block
/// of its system prompt, and on the last two messages that can bear one, each on
/// the last block that can. All else stays as it is.
pub proof fn anthropic_marks_stand_at_the_ends(req: AnthropicRequestView, j: int)
    ensures
        ({
            let out = marked_request(req);
            &&& out.tools.len() == req.tools.len()
            &&& 0 <= j < req.tools.len() ==> {
                &&& out.tools[j].name == req.tools[j].name
                &&& out.tools[j].description == req.tools[j].description
                &&& out.tools[j].input_schema == req.tools[j].input_schema
                &&& out.tools[j].cache_control == (if j == req.tools.len() - 1 {
                    Some(AnthropicCacheControl::Ephemeral)
                } else {
                    req.tools[j].cache_control
                })
            }
            &&& out.system.len() == req.system.len()
            &&& 0 <= j < req.system.len() ==> {
                &&& out.system[j].text == req.system[j].text
                &&& out.system[j].cache_control == (if j == req.system.len() - 1 {
                    Some(AnthropicCacheControl::Ephemeral)
                } else {
                    req.system[j].cache_control
                })
            }
            &&& out.messages.len() == req.messages.len()
            &&& 0 <= j < req.messages.len() ==> {
                let wanted = has_bearer(req.messages[j]) && !two_can_bear(
                    req.messages,
                    j + 1,
                    req.messages.len() as int,
                );
                let blocks = req.messages[j].content;
                &&& out.messages[j].from_model == req.messages[j].from_model
                &&& !wanted ==> out.messages[j].content == blocks
                &&& wanted ==> exists|p: int| #[trigger]
                    is_last_bearer(blocks, p) && is_marked_block(
                        out.messages[j].content[p],
                        blocks[p],
                    ) && out.messages[j].content == blocks.update(p, out.messages[j].content[p])
            }
        }),
{
    if 0 <= j < req.messages.len() {
        lemma_has_bearer(req.messages[j]);
        lemma_two_bearers(req.messages, j + 1, req.messages.len() as int);
        if anthropic_at_end(req.messages, j) {
            let p = last_bearer(req.messages[j].content)->0;
            assert(is_last_bearer(req.messages[j].content, p));
            assert(marked_request(req).messages[j].content[p] == crate::cache::marked_block(
                req.messages[j].content[p],
            ));
        }
    }
}

/// A model without a key is told by its id, and where a key can be set.
pub proof fn missing_keys_are_told(id: Seq<char>)
    ensures
        no_key_text(id) == "model '"@ + id
            + "' has no api_key configured; set it in your global config (~/.latte/models.yaml), project config (config/models.toml), --api-key flag, or the corresponding ${ENV_VAR} in api_key"@,
{
}

} // verus!
