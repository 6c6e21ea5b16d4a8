//! Marks for the prompt cache: which parts of a request a provider is asked to
//! keep. A request carries at most four of them, two at its head, which stays
//! the same from turn to turn, and two at its end, which moves along with the
//! conversation.
use crate::models::Role;
use crate::wire::{
    anthropic_messages_of, blocks_of, openai_messages_of, openai_parts_of, AnthropicCacheControl,
    AnthropicContentBlock, AnthropicMessageView, AnthropicRequest, AnthropicRequestView,
    AnthropicToolView, BlockView, OpenAiChatRequest, OpenAiContentPart, OpenAiContentView,
    OpenAiMessage, OpenAiMessageContent, OpenAiMessageView, OpenAiPartView, OpenAiRequestView,
    SystemBlockView,
};
use vstd::prelude::*;

verus! {

/// Marks at the head of a request, and at its end.
pub const MARKS_PER_END: usize = 2;

/// A mark.
pub open spec fn mark() -> Option<AnthropicCacheControl> {
    Some(AnthropicCacheControl::Ephemeral)
}

/// The last text among these pieces.
pub open spec fn last_text(parts: Seq<OpenAiPartView>) -> Option<int>
    decreases parts.len(),
{
    if parts.len() == 0 {
        None
    } else if parts.last() is Text {
        Some(parts.len() - 1)
    } else {
        last_text(parts.drop_last())
    }
}

/// Whether a content can carry a mark: it consists of pieces, one of them a
/// text.
pub open spec fn markable(content: OpenAiContentView) -> bool {
    content is Parts && last_text(content->Parts_0) is Some
}

/// A content with a mark on its last text, if it can carry one.
pub open spec fn marked_content(content: OpenAiContentView) -> OpenAiContentView {
    match content {
        OpenAiContentView::Parts(parts) => match last_text(parts) {
            Some(i) => OpenAiContentView::Parts(
                parts.update(
                    i,
                    OpenAiPartView::Text { text: parts[i]->text, cache_control: mark() },
                ),
            ),
            None => content,
        },
        _ => content,
    }
}

/// A message with a mark.
pub open spec fn marked_message(message: OpenAiMessageView) -> OpenAiMessageView {
    OpenAiMessageView { content: marked_content(message.content), ..message }
}

/// How many of the flags from `from` on and before `to` are set.
pub open spec fn count_set(flags: Seq<bool>, from: int, to: int) -> nat
    decreases to - from,
{
    if from >= to {
        0
    } else {
        count_set(flags, from, to - 1) + (if flags[to - 1] {
            1nat
        } else {
            0
        })
    }
}

/// Which of the messages can carry a mark.
pub open spec fn carriers(messages: Seq<OpenAiMessageView>) -> Seq<bool> {
    messages.map_values(|m: OpenAiMessageView| markable(m.content))
}

/// Whether all messages up to `j` are system messages.
pub open spec fn leads(messages: Seq<OpenAiMessageView>, j: int) -> bool {
    forall|k: int| 0 <= k <= j ==> (#[trigger] messages[k]).role == Role::System
}

/// Whether a message is one of the first two that can carry a mark, among the
/// system messages at the start.
pub open spec fn at_head(messages: Seq<OpenAiMessageView>, j: int) -> bool {
    &&& leads(messages, j)
    &&& markable(messages[j].content)
    &&& count_set(carriers(messages), 0, j) < MARKS_PER_END
}

/// Whether a message is one of the last two that can carry a mark.
pub open spec fn at_end(messages: Seq<OpenAiMessageView>, j: int) -> bool {
    &&& markable(messages[j].content)
    &&& count_set(carriers(messages), j + 1, messages.len() as int) < MARKS_PER_END
}

/// The messages with their marks.
pub open spec fn marked_messages(messages: Seq<OpenAiMessageView>) -> Seq<OpenAiMessageView> {
    Seq::new(
        messages.len(),
        |j: int|
            if at_head(messages, j) || at_end(messages, j) {
                marked_message(messages[j])
            } else {
                messages[j]
            },
    )
}

pub proof fn lemma_last_text(parts: Seq<OpenAiPartView>)
    ensures
        match last_text(parts) {
            Some(i) => 0 <= i < parts.len() && parts[i] is Text && (forall|j: int|
                i < j < parts.len() ==> !((#[trigger] parts[j]) is Text)),
            None => forall|j: int| 0 <= j < parts.len() ==> !((#[trigger] parts[j]) is Text),
        },
    decreases parts.len(),
{
    if parts.len() > 0 && !(parts.last() is Text) {
        lemma_last_text(parts.drop_last());
        assert forall|j: int| 0 <= j < parts.len() - 1 implies parts.drop_last()[j]
            == #[trigger] parts[j] by {}
    }
}

/// The last text among these pieces.
fn last_text_at(parts: &Vec<OpenAiContentPart>) -> (at: Option<(usize, String)>)
    ensures
        match at {
            Some((i, text)) => i < parts@.len() && last_text(openai_parts_of(parts@)) == Some(
                i as int,
            ) && openai_parts_of(parts@)[i as int]->text == text@,
            None => last_text(openai_parts_of(parts@)) is None,
        },
{
    let ghost all = openai_parts_of(parts@);
    let mut i: usize = parts.len();
    assert(all.take(all.len() as int) =~= all);
    while i > 0
        invariant
            i <= parts@.len(),
            all == openai_parts_of(parts@),
            last_text(all) == last_text(all.take(i as int)),
        decreases i,
    {
        assert(all.take(i as int).drop_last() =~= all.take(i - 1));
        assert(all.take(i as int).last() == parts@[i - 1]@);
        if let OpenAiContentPart::Text { text, .. } = &parts[i - 1] {
            return Some((i - 1, text.clone()));
        }
        i = i - 1;
    }
    None
}

/// Puts a mark on the last text of a content, and says whether there is one.
pub fn mark_openai_last_text(content: &mut OpenAiMessageContent) -> (b: bool)
    ensures
        b == markable(old(content)@),
        final(content)@ == marked_content(old(content)@),
{
    match content {
        OpenAiMessageContent::Parts(parts) => {
            let ghost before = openai_parts_of(parts@);
            match last_text_at(parts) {
                Some((i, text)) => {
                    let ghost view = OpenAiPartView::Text { text: text@, cache_control: mark() };
                    parts.set(
                        i,
                        OpenAiContentPart::Text {
                            text,
                            cache_control: Some(AnthropicCacheControl::ephemeral()),
                        },
                    );
                    assert(openai_parts_of(parts@) =~= before.update(i as int, view));
                    true
                },
                None => false,
            }
        },
        OpenAiMessageContent::ToolString(_) => false,
    }
}

proof fn lemma_counts_split(flags: Seq<bool>, from: int, to: int)
    requires
        0 <= from < to <= flags.len(),
    ensures
        count_set(flags, from, to) == (if flags[from] {
            1nat
        } else {
            0
        }) + count_set(flags, from + 1, to),
    decreases to - from,
{
    if from + 1 < to {
        lemma_counts_split(flags, from, to - 1);
    } else {
        assert(count_set(flags, from + 1, to) == 0);
        assert(count_set(flags, from, to - 1) == 0);
    }
}

proof fn lemma_counts_grow(flags: Seq<bool>, from: int, mid: int, to: int)
    requires
        0 <= from <= mid <= to <= flags.len(),
    ensures
        count_set(flags, from, mid) <= count_set(flags, from, to),
        count_set(flags, mid, to) <= count_set(flags, from, to),
    decreases to - mid,
{
    if mid < to {
        lemma_counts_grow(flags, from, mid + 1, to);
        assert(count_set(flags, from, mid + 1) >= count_set(flags, from, mid));
    }
    lemma_counts_tail(flags, from, mid, to);
}

proof fn lemma_counts_tail(flags: Seq<bool>, from: int, mid: int, to: int)
    requires
        0 <= from <= mid <= to <= flags.len(),
    ensures
        count_set(flags, mid, to) <= count_set(flags, from, to),
    decreases mid - from,
{
    if from < mid {
        lemma_counts_tail(flags, from + 1, mid, to);
        if from < to {
            lemma_counts_split(flags, from, to);
        }
    }
}

/// Marks the message at `i`.
fn mark_message_at(messages: &mut Vec<OpenAiMessage>, i: usize) -> (b: bool)
    requires
        i < old(messages)@.len(),
    ensures
        final(messages)@.len() == old(messages)@.len(),
        b == markable(openai_messages_of(old(messages)@)[i as int].content),
        openai_messages_of(final(messages)@) == openai_messages_of(old(messages)@).update(
            i as int,
            marked_message(openai_messages_of(old(messages)@)[i as int]),
        ),
{
    let ghost before = messages@;
    let b = mark_openai_last_text(&mut messages[i].content);
    assert(openai_messages_of(messages@) =~= openai_messages_of(before).update(
        i as int,
        marked_message(openai_messages_of(before)[i as int]),
    ));
    b
}

/// Puts the marks into a request: on the first two system messages at its start
/// that can carry one, and on the last two messages that can.
pub fn apply_openai_cache_breakpoints(req: &mut OpenAiChatRequest)
    ensures
        final(req)@ == (OpenAiRequestView {
            messages: marked_messages(old(req)@.messages),
            ..old(req)@
        }),
{
    let ghost all = openai_messages_of(req.messages@);
    let ghost flags = carriers(all);
    let ghost n = all.len() as int;
    let mut head: usize = 0;
    let mut i: usize = 0;
    while i < req.messages.len() && head < MARKS_PER_END && req.messages[i].role == Role::System
        invariant
            i <= req.messages@.len() == n,
            n == all.len(),
            flags == carriers(all),
            head == count_set(flags, 0, i as int),
            head <= MARKS_PER_END,
            forall|k: int| 0 <= k < i ==> (#[trigger] all[k]).role == Role::System,
            forall|j: int|
                0 <= j < n ==> #[trigger] openai_messages_of(req.messages@)[j] == (if j < i
                    && at_head(all, j) {
                    marked_message(all[j])
                } else {
                    all[j]
                }),
            (OpenAiRequestView { messages: all, ..req@ }) == old(req)@,
        decreases req.messages@.len() - i,
    {
        let ghost now = openai_messages_of(req.messages@);
        assert(now[i as int] == all[i as int]);
        let b = mark_message_at(&mut req.messages, i);
        proof {
            assert(req.messages@.len() == n);
            assert(b == at_head(all, i as int)) by {
                assert(leads(all, i as int));
            }
            assert(!b ==> marked_message(all[i as int]) == all[i as int]);
        }
        if b {
            head = head + 1;
        }
        i = i + 1;
    }
    proof {
        assert forall|j: int| i <= j < n implies !at_head(all, j) by {
            if at_head(all, j) {
                assert(all[i as int].role == Role::System);
                assert(openai_messages_of(req.messages@)[i as int] == all[i as int]);
                assert(req.messages@[i as int].role == Role::System);
                lemma_counts_grow(flags, 0, i as int, j);
            }
        }
    }
    let mut tail: usize = 0;
    let mut k: usize = req.messages.len();
    while k > 0 && tail < MARKS_PER_END
        invariant
            k <= req.messages@.len() == n,
            n == all.len(),
            flags == carriers(all),
            tail == count_set(flags, k as int, n),
            tail <= MARKS_PER_END,
            forall|j: int|
                0 <= j < n ==> #[trigger] openai_messages_of(req.messages@)[j] == (if at_head(all, j)
                    || (j >= k && at_end(all, j)) {
                    marked_message(all[j])
                } else {
                    all[j]
                }),
            (OpenAiRequestView { messages: all, ..req@ }) == old(req)@,
        decreases k,
    {
        let ghost now = openai_messages_of(req.messages@);
        let ghost at = k - 1;
        proof {
            lemma_marking_again(all[at]);
            lemma_counts_split(flags, at, n);
        }
        let b = mark_message_at(&mut req.messages, k - 1);
        proof {
            assert(now[at] == all[at] || now[at] == marked_message(all[at]));
            assert(b == markable(all[at].content));
            assert(b == at_end(all, at));
            assert(!b ==> marked_message(all[at]) == all[at]);
        }
        if b {
            tail = tail + 1;
        }
        k = k - 1;
    }
    proof {
        assert forall|j: int| 0 <= j < k implies !at_end(all, j) by {
            if at_end(all, j) {
                lemma_counts_grow(flags, j + 1, k as int, n);
            }
        }
        assert(openai_messages_of(req.messages@) =~= marked_messages(all));
    }
}

/// A second mark changes nothing, and a mark does not change what can carry one.
pub proof fn lemma_marking_again(message: OpenAiMessageView)
    ensures
        marked_message(marked_message(message)) == marked_message(message),
        markable(marked_message(message).content) == markable(message.content),
        !markable(message.content) ==> marked_message(message) == message,
{
    if let OpenAiContentView::Parts(parts) = message.content {
        lemma_last_text(parts);
        if let Some(i) = last_text(parts) {
            let again = parts.update(
                i,
                OpenAiPartView::Text { text: parts[i]->text, cache_control: mark() },
            );
            lemma_last_text(again);
            assert(again[i] is Text);
            if let Some(j) = last_text(again) {
                if j > i {
                    assert(!(parts[j] is Text));
                }
                if j < i {
                    assert(again[i] is Text);
                }
            }
            assert(again.update(
                i,
                OpenAiPartView::Text { text: again[i]->text, cache_control: mark() },
            ) =~= again);
        }
    }
}

/// The last block that can carry a mark: a text or the outcome of a tool call.
pub open spec fn last_bearer(blocks: Seq<BlockView>) -> Option<int>
    decreases blocks.len(),
{
    if blocks.len() == 0 {
        None
    } else if blocks.last() is Text || blocks.last() is ToolResult {
        Some(blocks.len() - 1)
    } else {
        last_bearer(blocks.drop_last())
    }
}

/// A block with a mark.
pub open spec fn marked_block(block: BlockView) -> BlockView {
    match block {
        BlockView::Text { text, .. } => BlockView::Text { text, cache_control: mark() },
        BlockView::ToolResult { tool_use_id, content, is_error, .. } => BlockView::ToolResult {
            tool_use_id,
            content,
            is_error,
            cache_control: mark(),
        },
        other => other,
    }
}

/// Blocks with a mark on the last one that can carry it.
pub open spec fn marked_blocks(blocks: Seq<BlockView>) -> Seq<BlockView> {
    match last_bearer(blocks) {
        Some(i) => blocks.update(i, marked_block(blocks[i])),
        None => blocks,
    }
}

/// Which of the messages can carry a mark.
pub open spec fn bearers(messages: Seq<AnthropicMessageView>) -> Seq<bool> {
    messages.map_values(|m: AnthropicMessageView| last_bearer(m.content) is Some)
}

/// Whether a message is one of the last two that can carry a mark.
pub open spec fn anthropic_at_end(messages: Seq<AnthropicMessageView>, j: int) -> bool {
    &&& last_bearer(messages[j].content) is Some
    &&& count_set(bearers(messages), j + 1, messages.len() as int) < MARKS_PER_END
}

/// A message with a mark.
pub open spec fn marked_anthropic(message: AnthropicMessageView) -> AnthropicMessageView {
    AnthropicMessageView { content: marked_blocks(message.content), ..message }
}

/// The messages with their marks.
pub open spec fn marked_anthropic_messages(messages: Seq<AnthropicMessageView>) -> Seq<
    AnthropicMessageView,
> {
    Seq::new(
        messages.len(),
        |j: int|
            if anthropic_at_end(messages, j) {
                marked_anthropic(messages[j])
            } else {
                messages[j]
            },
    )
}

/// The tools with a mark on the last one.
pub open spec fn marked_tools(tools: Seq<AnthropicToolView>) -> Seq<AnthropicToolView> {
    if tools.len() == 0 {
        tools
    } else {
        tools.update(
            tools.len() - 1,
            AnthropicToolView { cache_control: mark(), ..tools.last() },
        )
    }
}

/// The system prompt with a mark on its last block.
pub open spec fn marked_system(blocks: Seq<SystemBlockView>) -> Seq<SystemBlockView> {
    if blocks.len() == 0 {
        blocks
    } else {
        blocks.update(
            blocks.len() - 1,
            SystemBlockView { cache_control: mark(), ..blocks.last() },
        )
    }
}

/// A request with its marks.
pub open spec fn marked_request(req: AnthropicRequestView) -> AnthropicRequestView {
    AnthropicRequestView {
        tools: marked_tools(req.tools),
        system: marked_system(req.system),
        messages: marked_anthropic_messages(req.messages),
        ..req
    }
}

fn last_bearer_at(blocks: &Vec<AnthropicContentBlock>) -> (at: Option<usize>)
    ensures
        match at {
            Some(i) => i < blocks@.len() && last_bearer(blocks_of(blocks@)) == Some(i as int) && (
            blocks@[i as int] is Text || blocks@[i as int] is ToolResult),
            None => last_bearer(blocks_of(blocks@)) is None,
        },
{
    let ghost all = blocks_of(blocks@);
    let mut i: usize = blocks.len();
    assert(all.take(all.len() as int) =~= all);
    while i > 0
        invariant
            i <= blocks@.len(),
            all == blocks_of(blocks@),
            last_bearer(all) == last_bearer(all.take(i as int)),
        decreases i,
    {
        assert(all.take(i as int).drop_last() =~= all.take(i - 1));
        assert(all.take(i as int).last() == blocks@[i - 1]@);
        match &blocks[i - 1] {
            AnthropicContentBlock::Text { .. } | AnthropicContentBlock::ToolResult { .. } => {
                return Some(i - 1);
            },
            _ => {},
        }
        i = i - 1;
    }
    None
}

/// Puts a mark on the last block that can carry one, and says whether there is
/// one.
pub fn apply_cache_control_to_last_block(blocks: &mut Vec<AnthropicContentBlock>) -> (b: bool)
    ensures
        final(blocks)@.len() == old(blocks)@.len(),
        b == (last_bearer(blocks_of(old(blocks)@)) is Some),
        blocks_of(final(blocks)@) == marked_blocks(blocks_of(old(blocks)@)),
{
    let ghost before = blocks@;
    match last_bearer_at(blocks) {
        Some(i) => {
            match &mut blocks[i] {
                AnthropicContentBlock::Text { cache_control, .. } => {
                    *cache_control = Some(AnthropicCacheControl::ephemeral());
                },
                AnthropicContentBlock::ToolResult { cache_control, .. } => {
                    *cache_control = Some(AnthropicCacheControl::ephemeral());
                },
                _ => {},
            }
            assert(blocks_of(blocks@) =~= marked_blocks(blocks_of(before)));
            true
        },
        None => false,
    }
}

/// Puts the marks into a request: on the last tool, on the last block of the
/// system prompt, and on the last two messages that can carry one.
pub fn apply_anthropic_cache_breakpoints(req: &mut AnthropicRequest)
    ensures
        final(req)@ == marked_request(old(req)@),
{
    let ghost before = req@;
    let tools: usize = req.tools.len();
    if tools > 0 {
        req.tools[tools - 1].cache_control = Some(AnthropicCacheControl::ephemeral());
    }
    assert(req@.tools =~= marked_tools(before.tools));
    let blocks: usize = req.system.len();
    if blocks > 0 {
        req.system[blocks - 1].cache_control = Some(AnthropicCacheControl::ephemeral());
    }
    assert(req@.system =~= marked_system(before.system));
    let ghost all = before.messages;
    let ghost flags = bearers(all);
    let ghost n = all.len() as int;
    let mut placed: usize = 0;
    let mut k: usize = req.messages.len();
    while k > 0 && placed < MARKS_PER_END
        invariant
            k <= req.messages@.len() == n,
            n == all.len(),
            flags == bearers(all),
            all == before.messages,
            before == old(req)@,
            placed == count_set(flags, k as int, n),
            placed <= MARKS_PER_END,
            forall|j: int|
                0 <= j < n ==> #[trigger] anthropic_messages_of(req.messages@)[j] == (if j >= k
                    && anthropic_at_end(all, j) {
                    marked_anthropic(all[j])
                } else {
                    all[j]
                }),
            req@ == (AnthropicRequestView {
                messages: anthropic_messages_of(req.messages@),
                tools: marked_tools(before.tools),
                system: marked_system(before.system),
                ..before
            }),
        decreases k,
    {
        let ghost at = k - 1;
        let ghost now = req.messages@;
        proof {
            lemma_counts_split(flags, at, n);
            assert(anthropic_messages_of(now)[at] == all[at]);
        }
        let b = apply_cache_control_to_last_block(&mut req.messages[k - 1].content);
        proof {
            assert(anthropic_messages_of(req.messages@) =~= anthropic_messages_of(now).update(
                at,
                marked_anthropic(all[at]),
            ));
            assert(b == anthropic_at_end(all, at));
            assert(!b ==> marked_anthropic(all[at]) == all[at]);
        }
        if b {
            placed = placed + 1;
        }
        k = k - 1;
    }
    proof {
        assert forall|j: int| 0 <= j < k implies !anthropic_at_end(all, j) by {
            if anthropic_at_end(all, j) {
                lemma_counts_grow(flags, j + 1, k as int, n);
            }
        }
        assert(anthropic_messages_of(req.messages@) =~= marked_anthropic_messages(all));
    }
}

/// Whether a piece carries a mark.
pub open spec fn part_marked() -> spec_fn(OpenAiPartView) -> bool {
    |part: OpenAiPartView| part is Text && part->cache_control is Some
}

/// Whether a block carries a mark.
pub open spec fn block_marked() -> spec_fn(BlockView) -> bool {
    |block: BlockView|
        match block {
            BlockView::Text { cache_control, .. } => cache_control is Some,
            BlockView::ToolResult { cache_control, .. } => cache_control is Some,
            _ => false,
        }
}

/// Whether a tool carries a mark.
pub open spec fn tool_marked() -> spec_fn(AnthropicToolView) -> bool {
    |tool: AnthropicToolView| tool.cache_control is Some
}

/// Whether a block of the system prompt carries a mark.
pub open spec fn system_marked() -> spec_fn(SystemBlockView) -> bool {
    |block: SystemBlockView| block.cache_control is Some
}

/// How many of the items carry a mark.
pub open spec fn marks<T>(items: Seq<T>, marked: spec_fn(T) -> bool) -> nat {
    count_set(items.map_values(marked), 0, items.len() as int)
}

/// How many marks a content carries.
pub open spec fn content_marks(content: OpenAiContentView) -> nat {
    match content {
        OpenAiContentView::Parts(parts) => marks(parts, part_marked()),
        OpenAiContentView::ToolString(_) => 0,
    }
}

/// How many marks these messages carry.
pub open spec fn openai_marks(messages: Seq<OpenAiMessageView>) -> nat
    decreases messages.len(),
{
    if messages.len() == 0 {
        0
    } else {
        openai_marks(messages.drop_last()) + content_marks(messages.last().content)
    }
}

/// How many marks these messages carry.
pub open spec fn anthropic_marks(messages: Seq<AnthropicMessageView>) -> nat
    decreases messages.len(),
{
    if messages.len() == 0 {
        0
    } else {
        anthropic_marks(messages.drop_last()) + marks(messages.last().content, block_marked())
    }
}

/// How many marks a request carries.
pub open spec fn request_marks(req: AnthropicRequestView) -> nat {
    marks(req.tools, tool_marked()) + marks(req.system, system_marked()) + anthropic_marks(
        req.messages,
    )
}

proof fn lemma_first_few(flags: Seq<bool>, picked: Seq<bool>, few: nat, n: int)
    requires
        0 <= n <= flags.len(),
        picked.len() == flags.len(),
        forall|j: int| #![trigger picked[j]]
            0 <= j < flags.len() && picked[j] ==> flags[j] && count_set(flags, 0, j) < few,
    ensures
        count_set(picked, 0, n) <= few,
        count_set(picked, 0, n) <= count_set(flags, 0, n),
    decreases n,
{
    if n > 0 {
        lemma_first_few(flags, picked, few, n - 1);
    }
}

proof fn lemma_last_few(flags: Seq<bool>, picked: Seq<bool>, few: nat, from: int)
    requires
        0 <= from <= flags.len(),
        picked.len() == flags.len(),
        forall|j: int| #![trigger picked[j]]
            0 <= j < flags.len() && picked[j] ==> flags[j] && count_set(
                flags,
                j + 1,
                flags.len() as int,
            ) < few,
    ensures
        count_set(picked, from, flags.len() as int) <= few,
        count_set(picked, from, flags.len() as int) <= count_set(flags, from, flags.len() as int),
    decreases flags.len() - from,
{
    if from < flags.len() {
        lemma_last_few(flags, picked, few, from + 1);
        lemma_counts_split(flags, from, flags.len() as int);
        lemma_counts_split(picked, from, flags.len() as int);
    }
}

proof fn lemma_either(first: Seq<bool>, second: Seq<bool>, either: Seq<bool>, n: int)
    requires
        0 <= n <= either.len(),
        first.len() == either.len(),
        second.len() == either.len(),
        forall|j: int| #![trigger either[j]]
            0 <= j < either.len() ==> either[j] == (first[j] || second[j]),
    ensures
        count_set(either, 0, n) <= count_set(first, 0, n) + count_set(second, 0, n),
    decreases n,
{
    if n > 0 {
        lemma_either(first, second, either, n - 1);
    }
}

proof fn lemma_none_set(flags: Seq<bool>, from: int, n: int)
    requires
        count_set(flags, from, n) == 0,
    ensures
        forall|j: int| from <= j < n ==> !(#[trigger] flags[j]),
    decreases n - from,
{
    if n > from {
        lemma_none_set(flags, from, n - 1);
    }
}

proof fn lemma_one_set(flags: Seq<bool>, i: int, n: int)
    requires
        forall|j: int| 0 <= j < n && j != i ==> !(#[trigger] flags[j]),
    ensures
        count_set(flags, 0, n) <= 1,
        !(0 <= i < n) ==> count_set(flags, 0, n) == 0,
    decreases n,
{
    if n > 0 {
        lemma_one_set(flags, i, n - 1);
    }
}

/// One item more with a mark is at most one mark, where there was none.
proof fn lemma_one_mark<T>(items: Seq<T>, marked: spec_fn(T) -> bool, i: int, item: T)
    requires
        0 <= i < items.len(),
        marks(items, marked) == 0,
    ensures
        marks(items.update(i, item), marked) <= 1,
{
    let before = items.map_values(marked);
    let after = items.update(i, item).map_values(marked);
    lemma_none_set(before, 0, items.len() as int);
    assert forall|j: int| 0 <= j < items.len() && j != i implies !(#[trigger] after[j]) by {
        assert(after[j] == before[j]);
    }
    lemma_one_set(after, i, items.len() as int);
}

proof fn lemma_openai_marks(messages: Seq<OpenAiMessageView>, n: int)
    requires
        0 <= n <= messages.len(),
        forall|j: int|
            0 <= j < messages.len() ==> content_marks((#[trigger] messages[j]).content) == 0,
    ensures
        openai_marks(marked_messages(messages).take(n)) <= count_set(picked(messages), 0, n),
    decreases n,
{
    if n > 0 {
        lemma_openai_marks(messages, n - 1);
        let after = marked_messages(messages);
        assert(after.take(n).drop_last() =~= after.take(n - 1));
        let message = messages[n - 1];
        if let OpenAiContentView::Parts(parts) = message.content {
            lemma_last_text(parts);
            if let Some(i) = last_text(parts) {
                lemma_one_mark(
                    parts,
                    part_marked(),
                    i,
                    OpenAiPartView::Text { text: parts[i]->text, cache_control: mark() },
                );
            }
        }
    }
}

/// Which of the messages get a mark.
pub open spec fn picked(messages: Seq<OpenAiMessageView>) -> Seq<bool> {
    Seq::new(messages.len(), |j: int| at_head(messages, j) || at_end(messages, j))
}

/// A request whose messages carry no mark gets at most four.
pub proof fn openai_request_gets_at_most_four_marks(messages: Seq<OpenAiMessageView>)
    requires
        forall|j: int|
            0 <= j < messages.len() ==> content_marks((#[trigger] messages[j]).content) == 0,
    ensures
        openai_marks(marked_messages(messages)) <= 4,
{
    let n = messages.len() as int;
    let flags = carriers(messages);
    let heads = Seq::new(messages.len(), |j: int| at_head(messages, j));
    let ends = Seq::new(messages.len(), |j: int| at_end(messages, j));
    lemma_first_few(flags, heads, MARKS_PER_END as nat, n);
    lemma_last_few(flags, ends, MARKS_PER_END as nat, 0);
    lemma_either(heads, ends, picked(messages), n);
    lemma_openai_marks(messages, n);
    assert(marked_messages(messages).take(n) =~= marked_messages(messages));
}

pub proof fn lemma_last_bearer(blocks: Seq<BlockView>)
    ensures
        match last_bearer(blocks) {
            Some(i) => 0 <= i < blocks.len() && (blocks[i] is Text || blocks[i] is ToolResult) && (
            forall|j: int|
                i < j < blocks.len() ==> !((#[trigger] blocks[j]) is Text || blocks[j] is ToolResult)),
            None => forall|j: int|
                0 <= j < blocks.len() ==> !((#[trigger] blocks[j]) is Text
                    || blocks[j] is ToolResult),
        },
    decreases blocks.len(),
{
    if blocks.len() > 0 && !(blocks.last() is Text || blocks.last() is ToolResult) {
        lemma_last_bearer(blocks.drop_last());
        assert forall|j: int| 0 <= j < blocks.len() - 1 implies blocks.drop_last()[j]
            == #[trigger] blocks[j] by {}
    }
}

proof fn lemma_anthropic_marks(messages: Seq<AnthropicMessageView>, n: int)
    requires
        0 <= n <= messages.len(),
        forall|j: int|
            0 <= j < messages.len() ==> marks((#[trigger] messages[j]).content, block_marked())
                == 0,
    ensures
        anthropic_marks(marked_anthropic_messages(messages).take(n)) <= count_set(
            anthropic_ends(messages),
            0,
            n,
        ),
    decreases n,
{
    if n > 0 {
        lemma_anthropic_marks(messages, n - 1);
        let after = marked_anthropic_messages(messages);
        assert(after.take(n).drop_last() =~= after.take(n - 1));
        let blocks = messages[n - 1].content;
        lemma_last_bearer(blocks);
        if let Some(i) = last_bearer(blocks) {
            lemma_one_mark(blocks, block_marked(), i, marked_block(blocks[i]));
        }
    }
}

/// Which of the messages get a mark.
pub open spec fn anthropic_ends(messages: Seq<AnthropicMessageView>) -> Seq<bool> {
    Seq::new(messages.len(), |j: int| anthropic_at_end(messages, j))
}

/// A request without marks gets at most four.
pub proof fn anthropic_request_gets_at_most_four_marks(req: AnthropicRequestView)
    requires
        marks(req.tools, tool_marked()) == 0,
        marks(req.system, system_marked()) == 0,
        forall|j: int|
            0 <= j < req.messages.len() ==> marks(
                (#[trigger] req.messages[j]).content,
                block_marked(),
            ) == 0,
    ensures
        request_marks(marked_request(req)) <= 4,
{
    let n = req.messages.len() as int;
    lemma_last_few(bearers(req.messages), anthropic_ends(req.messages), MARKS_PER_END as nat, 0);
    lemma_anthropic_marks(req.messages, n);
    assert(marked_anthropic_messages(req.messages).take(n) =~= marked_anthropic_messages(
        req.messages,
    ));
    if req.tools.len() > 0 {
        lemma_one_mark(
            req.tools,
            tool_marked(),
            req.tools.len() - 1,
            AnthropicToolView { cache_control: mark(), ..req.tools.last() },
        );
    }
    if req.system.len() > 0 {
        lemma_one_mark(
            req.system,
            system_marked(),
            req.system.len() - 1,
            SystemBlockView { cache_control: mark(), ..req.system.last() },
        );
    }
}

/// Marking a marked request changes nothing.
pub proof fn marking_an_openai_request_twice_is_marking_it_once(messages: Seq<OpenAiMessageView>)
    ensures
        marked_messages(marked_messages(messages)) == marked_messages(messages),
{
    let once = marked_messages(messages);
    assert forall|j: int| 0 <= j < messages.len() implies markable((#[trigger] once[j]).content)
        == markable(messages[j].content) && once[j].role == messages[j].role by {
        lemma_marking_again(messages[j]);
    }
    assert(carriers(once) =~= carriers(messages));
    assert forall|j: int| 0 <= j < messages.len() implies #[trigger] marked_messages(once)[j]
        == once[j] by {
        lemma_marking_again(messages[j]);
        assert(markable(once[j].content) == markable(messages[j].content));
        assert(leads(once, j) == leads(messages, j)) by {
            if leads(once, j) {
                assert forall|k: int| 0 <= k <= j implies (#[trigger] messages[k]).role
                    == Role::System by {
                    assert(once[k].role == messages[k].role);
                }
            }
            if leads(messages, j) {
                assert forall|k: int| 0 <= k <= j implies (#[trigger] once[k]).role
                    == Role::System by {
                    assert(once[k].role == messages[k].role);
                }
            }
        }
        assert(at_head(once, j) == at_head(messages, j));
        assert(at_end(once, j) == at_end(messages, j));
    }
    assert(marked_messages(once) =~= once);
}

proof fn lemma_marking_blocks_again(blocks: Seq<BlockView>)
    ensures
        marked_blocks(marked_blocks(blocks)) == marked_blocks(blocks),
        last_bearer(marked_blocks(blocks)) == last_bearer(blocks),
{
    lemma_last_bearer(blocks);
    let once = marked_blocks(blocks);
    lemma_last_bearer(once);
    if let Some(i) = last_bearer(blocks) {
        assert(once[i] is Text || once[i] is ToolResult);
        if let Some(j) = last_bearer(once) {
            if j > i {
                assert(once[j] == blocks[j]);
            }
        }
        assert(marked_blocks(once) =~= once);
    }
}

/// Marking a marked request changes nothing.
pub proof fn marking_an_anthropic_request_twice_is_marking_it_once(req: AnthropicRequestView)
    ensures
        marked_request(marked_request(req)) == marked_request(req),
{
    let messages = req.messages;
    let once = marked_anthropic_messages(messages);
    assert forall|j: int| 0 <= j < messages.len() implies last_bearer((#[trigger] once[j]).content)
        == last_bearer(messages[j].content) by {
        lemma_marking_blocks_again(messages[j].content);
    }
    assert(bearers(once) =~= bearers(messages));
    assert forall|j: int| 0 <= j < messages.len() implies #[trigger] marked_anthropic_messages(
        once,
    )[j] == once[j] by {
        lemma_marking_blocks_again(messages[j].content);
        assert(last_bearer(once[j].content) == last_bearer(messages[j].content));
        assert(anthropic_at_end(once, j) == anthropic_at_end(messages, j));
    }
    assert(marked_anthropic_messages(once) =~= once);
    assert(marked_tools(marked_tools(req.tools)) =~= marked_tools(req.tools));
    assert(marked_system(marked_system(req.system)) =~= marked_system(req.system));
}

} // verus!
