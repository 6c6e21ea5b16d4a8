//! Laws of the requests that a client sends.
use crate::cache::{
    anthropic_request_gets_at_most_four_marks, block_marked, content_marks, count_set,
    lemma_last_bearer, lemma_last_text, marked_blocks, marks, openai_marks,
    openai_request_gets_at_most_four_marks, part_marked, request_marks, system_marked, tool_marked,
};
use crate::client::{
    anthropic_content, anthropic_messages, anthropic_request, anthropic_request_unmarked,
    openai_message, openai_messages, openai_request, outcome_text, output_limit, spoken,
    system_prompt, system_texts, timeout,
};
use crate::models::{MessageView, Model, PartView, Role};
use crate::params::ParamsView;
use crate::wire::{BlockView, OpenAiContentView, OpenAiPartView};
use vstd::prelude::*;

verus! {

/// The limit on output tokens goes out under the name that the model takes, and
/// under no other.
pub proof fn limit_goes_out_under_one_name(
    model: Model,
    messages: Seq<MessageView>,
    params: ParamsView,
    stream: bool,
    include_usage: bool,
)
    ensures
        ({
            let req = openai_request(model, messages, params, stream, include_usage);
            let limit = output_limit(params.max_tokens, model);
            &&& req.max_tokens is None || req.max_completion_tokens is None
            &&& req.max_tokens == limit || req.max_completion_tokens == limit
        }),
{
}

/// A limit that is set goes out as it is, to both APIs.
pub proof fn limit_goes_out_as_it_is(
    model: Model,
    messages: Seq<MessageView>,
    params: ParamsView,
    stream: bool,
    include_usage: bool,
)
    requires
        !model.omit_max_tokens,
        params.max_tokens is Some ==> params.max_tokens->0 > 0,
        params.max_tokens is None ==> model.max_tokens > 0,
    ensures
        ({
            let n = if params.max_tokens is Some {
                params.max_tokens->0
            } else {
                model.max_tokens
            };
            let openai = openai_request(model, messages, params, stream, include_usage);
            &&& anthropic_request(model, messages, params).max_tokens == n
            &&& openai.max_tokens == Some(n) || openai.max_completion_tokens == Some(n)
        }),
{
}

/// A model that wants no limit gets none.
pub proof fn no_limit_where_none_is_wanted(
    model: Model,
    messages: Seq<MessageView>,
    params: ParamsView,
    stream: bool,
    include_usage: bool,
)
    requires
        model.omit_max_tokens,
    ensures
        ({
            let req = openai_request(model, messages, params, stream, include_usage);
            req.max_tokens is None && req.max_completion_tokens is None
        }),
{
}

/// The timeout of a model counts as it is, whatever the settings are.
pub proof fn timeout_of_the_model_counts(
    secs: u64,
    setting: Option<Seq<char>>,
    default_secs: nat,
)
    requires
        secs > 0,
    ensures
        timeout(Some(secs), setting, default_secs) == secs,
        timeout(Some(0), setting, default_secs) == timeout(None, setting, default_secs),
{
}

proof fn lemma_spoken(parts: Seq<PartView>)
    ensures
        forall|j: int|
            0 <= j < spoken(parts).len() ==> #[trigger] spoken(parts)[j] != PartView::Text(
                Seq::empty(),
            ),
    decreases parts.len(),
{
    if parts.len() > 0 {
        lemma_spoken(parts.drop_last());
    }
}

/// Whether a content has no text without a character.
pub open spec fn says_something(content: OpenAiContentView) -> bool {
    content matches OpenAiContentView::Parts(parts) ==> forall|j: int|
        0 <= j < parts.len() ==> ((#[trigger] parts[j]) matches OpenAiPartView::Text { text, .. }
            ==> text.len() > 0)
}

/// No text without a character goes out to the OpenAI API, and no message
/// without content but for one that asks for tool calls.
pub proof fn openai_request_has_no_empty_text(
    model: Model,
    messages: Seq<MessageView>,
    params: ParamsView,
    stream: bool,
    include_usage: bool,
    i: int,
)
    requires
        0 <= i < messages.len(),
    ensures
        ({
            let sent = openai_request(model, messages, params, stream, include_usage).messages;
            &&& sent.len() == messages.len()
            &&& says_something(sent[i].content)
            &&& sent[i].content matches OpenAiContentView::Parts(parts) ==> parts.len() > 0
                || sent[i].tool_calls is Some
        }),
{
    let message = messages[i];
    lemma_spoken(message.content);
    reveal_strlit(" ");
    let before = openai_messages(messages);
    assert(before[i] == openai_message(message));
    assert(says_something(before[i].content)) by {
        if let OpenAiContentView::Parts(parts) = before[i].content {
            assert forall|j: int| 0 <= j < parts.len() implies ((#[trigger] parts[j]) matches
                OpenAiPartView::Text { text, .. } ==> text.len() > 0) by {
                if spoken(message.content).len() > 0 {
                    let part = spoken(message.content)[j];
                    if let PartView::Text(text) = part {
                        if text.len() == 0 {
                            assert(text =~= Seq::empty());
                        }
                    }
                }
            }
        }
    }
    if let OpenAiContentView::Parts(parts) = before[i].content {
        lemma_last_text(parts);
    }
}

/// The outcome of a tool call goes out to the OpenAI API as one text, with the
/// lines of its pieces.
pub proof fn tool_outcome_is_one_text(
    model: Model,
    messages: Seq<MessageView>,
    params: ParamsView,
    stream: bool,
    include_usage: bool,
    i: int,
)
    requires
        0 <= i < messages.len(),
        messages[i].role == Role::Tool,
    ensures
        openai_request(model, messages, params, stream, include_usage).messages[i].content
            == OpenAiContentView::ToolString(outcome_text(messages[i])),
{
    assert(openai_messages(messages)[i] == openai_message(messages[i]));
}

/// Marks for the prompt cache go out to the OpenAI API only if the model takes
/// them, and never more than four.
pub proof fn openai_marks_are_few_and_wanted(
    model: Model,
    messages: Seq<MessageView>,
    params: ParamsView,
    stream: bool,
    include_usage: bool,
)
    ensures
        ({
            let sent = openai_request(model, messages, params, stream, include_usage).messages;
            &&& openai_marks(sent) <= 4
            &&& !model.prompt_cache ==> openai_marks(sent) == 0
        }),
{
    let plain = openai_messages(messages);
    assert forall|j: int| 0 <= j < plain.len() implies content_marks(
        (#[trigger] plain[j]).content,
    ) == 0 by {
        if let OpenAiContentView::Parts(parts) = plain[j].content {
            lemma_no_marks(parts, part_marked());
        }
    }
    openai_request_gets_at_most_four_marks(plain);
    lemma_no_openai_marks(plain);
}

proof fn lemma_no_marks<T>(items: Seq<T>, marked: spec_fn(T) -> bool)
    requires
        forall|j: int| 0 <= j < items.len() ==> !marked(#[trigger] items[j]),
    ensures
        marks(items, marked) == 0,
{
    let flags = items.map_values(marked);
    assert forall|j: int| 0 <= j < items.len() implies !(#[trigger] flags[j]) by {
        assert(!marked(items[j]));
    }
    lemma_none_set(flags, items.len() as int);
}

proof fn lemma_none_set(flags: Seq<bool>, n: int)
    requires
        0 <= n <= flags.len(),
        forall|j: int| 0 <= j < flags.len() ==> !(#[trigger] flags[j]),
    ensures
        count_set(flags, 0, n) == 0,
    decreases n,
{
    if n > 0 {
        lemma_none_set(flags, n - 1);
    }
}

proof fn lemma_no_openai_marks(messages: Seq<crate::wire::OpenAiMessageView>)
    requires
        forall|j: int|
            0 <= j < messages.len() ==> content_marks((#[trigger] messages[j]).content) == 0,
    ensures
        openai_marks(messages) == 0,
    decreases messages.len(),
{
    if messages.len() > 0 {
        assert forall|j: int| 0 <= j < messages.len() - 1 implies content_marks(
            (#[trigger] messages.drop_last()[j]).content,
        ) == 0 by {
            assert(messages.drop_last()[j] == messages[j]);
        }
        lemma_no_openai_marks(messages.drop_last());
        assert(messages.last() == messages[messages.len() - 1]);
    }
}

proof fn lemma_system_unmarked(messages: Seq<MessageView>)
    ensures
        forall|j: int|
            0 <= j < system_prompt(messages).len() ==> (#[trigger] system_prompt(
                messages,
            )[j]).cache_control is None && system_prompt(messages)[j].text.len() > 0,
    decreases messages.len(),
{
    if messages.len() > 0 {
        lemma_system_unmarked(messages.drop_last());
        lemma_texts_unmarked(messages.last().content);
    }
}

proof fn lemma_texts_unmarked(parts: Seq<PartView>)
    ensures
        forall|j: int|
            0 <= j < system_texts(parts).len() ==> (#[trigger] system_texts(
                parts,
            )[j]).cache_control is None && system_texts(parts)[j].text.len() > 0,
    decreases parts.len(),
{
    if parts.len() > 0 {
        lemma_texts_unmarked(parts.drop_last());
    }
}

/// Whether blocks carry no mark, and no text without a character, and are not
/// nothing at all.
pub open spec fn plain_blocks(blocks: Seq<BlockView>) -> bool {
    &&& blocks.len() > 0
    &&& forall|j: int|
        0 <= j < blocks.len() ==> match #[trigger] blocks[j] {
            BlockView::Text { text, cache_control } => text.len() > 0 && cache_control is None,
            BlockView::ToolResult { cache_control, .. } => cache_control is None,
            _ => true,
        }
}

proof fn lemma_content_plain(message: MessageView)
    ensures
        plain_blocks(anthropic_content(message)),
{
    reveal_strlit(" ");
    lemma_spoken(message.content);
    let blocks = anthropic_content(message);
    if message.role != Role::Tool && spoken(message.content).len() > 0 {
        assert forall|j: int| 0 <= j < blocks.len() implies match #[trigger] blocks[j] {
            BlockView::Text { text, cache_control } => text.len() > 0 && cache_control is None,
            BlockView::ToolResult { cache_control, .. } => cache_control is None,
            _ => true,
        } by {
            let part = spoken(message.content)[j];
            if let PartView::Text(text) = part {
                if text.len() == 0 {
                    assert(text =~= Seq::empty());
                }
            }
        }
    }
}

proof fn lemma_messages_plain(messages: Seq<MessageView>)
    ensures
        forall|i: int|
            0 <= i < anthropic_messages(messages).len() ==> plain_blocks(
                (#[trigger] anthropic_messages(messages)[i]).content,
            ),
    decreases messages.len(),
{
    if messages.len() > 0 {
        lemma_messages_plain(messages.drop_last());
        lemma_content_plain(messages.last());
        let before = anthropic_messages(messages.drop_last());
        let all = anthropic_messages(messages);
        assert forall|i: int| 0 <= i < all.len() implies plain_blocks(
            (#[trigger] all[i]).content,
        ) by {
            if i < before.len() {
                assert(plain_blocks(before[i].content));
                assert(all[i] == before[i]);
            }
        }
    }
}

/// Never more than four marks for the prompt cache go out to the Anthropic API.
pub proof fn anthropic_marks_are_few(
    model: Model,
    messages: Seq<MessageView>,
    params: ParamsView,
)
    ensures
        request_marks(anthropic_request(model, messages, params)) <= 4,
{
    let req = anthropic_request_unmarked(model, messages, params);
    lemma_no_marks(req.tools, tool_marked());
    lemma_system_unmarked(messages);
    lemma_no_marks(req.system, system_marked());
    lemma_messages_plain(messages);
    assert forall|j: int| 0 <= j < req.messages.len() implies marks(
        (#[trigger] req.messages[j]).content,
        block_marked(),
    ) == 0 by {
        assert(plain_blocks(req.messages[j].content));
        lemma_no_marks(req.messages[j].content, block_marked());
    }
    anthropic_request_gets_at_most_four_marks(req);
}

/// Whether no block is a text without a character, and there is a block.
pub open spec fn blocks_say_something(blocks: Seq<BlockView>) -> bool {
    &&& blocks.len() > 0
    &&& forall|j: int|
        0 <= j < blocks.len() ==> ((#[trigger] blocks[j]) matches BlockView::Text { text, .. }
            ==> text.len() > 0)
}

/// No text without a character goes out to the Anthropic API, and no message
/// without content.
pub proof fn anthropic_request_has_no_empty_text(
    model: Model,
    messages: Seq<MessageView>,
    params: ParamsView,
)
    ensures
        ({
            let req = anthropic_request(model, messages, params);
            &&& forall|i: int|
                0 <= i < req.messages.len() ==> blocks_say_something(
                    (#[trigger] req.messages[i]).content,
                )
            &&& forall|i: int|
                0 <= i < req.system.len() ==> (#[trigger] req.system[i]).text.len() > 0
        }),
{
    let plain = anthropic_messages(messages);
    let req = anthropic_request(model, messages, params);
    lemma_system_unmarked(messages);
    lemma_messages_plain(messages);
    assert forall|i: int| 0 <= i < req.messages.len() implies blocks_say_something(
        (#[trigger] req.messages[i]).content,
    ) by {
        let blocks = plain[i].content;
        assert(plain_blocks(blocks));
        lemma_last_bearer(blocks);
        let sent = req.messages[i].content;
        assert(sent == blocks || sent == marked_blocks(blocks));
        assert forall|j: int| 0 <= j < sent.len() implies ((#[trigger] sent[j]) matches
            BlockView::Text { text, .. } ==> text.len() > 0) by {
            assert(blocks[j] matches BlockView::Text { text, .. } ==> text.len() > 0);
        }
    }
    assert forall|i: int| 0 <= i < req.system.len() implies (#[trigger] req.system[i]).text.len()
        > 0 by {
        assert(system_prompt(messages)[i].text.len() > 0);
        assert(req.system[i].text == system_prompt(messages)[i].text);
    }
}

/// Whether a message is for the system prompt.
pub open spec fn for_system() -> spec_fn(MessageView) -> bool {
    |m: MessageView| m.role == Role::System
}

/// Whether a message is part of the conversation.
pub open spec fn for_conversation() -> spec_fn(MessageView) -> bool {
    |m: MessageView| m.role != Role::System
}

/// System messages go into the system prompt and all others into the
/// conversation, each in their order, wherever they stand.
pub proof fn system_messages_make_up_the_system_prompt(
    model: Model,
    messages: Seq<MessageView>,
    params: ParamsView,
)
    ensures
        ({
            let req = anthropic_request_unmarked(model, messages, params);
            &&& req.system == system_prompt(messages.filter(for_system()))
            &&& req.messages == anthropic_messages(messages.filter(for_conversation()))
            &&& req.messages.len() == messages.filter(for_conversation()).len()
        }),
    decreases messages.len(),
{
    reveal(Seq::filter);
    if messages.len() > 0 {
        system_messages_make_up_the_system_prompt(model, messages.drop_last(), params);
        let last = messages.last();
        let system = messages.drop_last().filter(for_system());
        let others = messages.drop_last().filter(for_conversation());
        assert(system.push(last).drop_last() =~= system);
        assert(others.push(last).drop_last() =~= others);
    }
}

} // verus!
