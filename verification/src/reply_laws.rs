//! What a whole answer comes to, in terms of what the API has sent.
use crate::client::{ended_by, openai_call, wait_end, AnswerWait, Arrival};
use crate::error::AiErrorView;
use crate::json::{parsed, JsonTree};
use crate::models::{completion_of, text_in, texts_among, EventView, PartView};
use crate::reply::{
    anthropic_refusal, anthropic_tokens, block_calls, block_parts, block_texts, content_texts,
    openai_completion, openai_refusal, text_or_empty, texts_of_parts, AnthropicUsage, ChoiceView,
    OpenAiUsage, ResponseContentView, ResponsePartView,
};
use crate::text::decimal_text;
use crate::wire::{base64_bytes, BlockView};
use vstd::prelude::*;

verus! {

/// The tool calls of an answer are those of its first choice, one for one: with
/// the id of the call, the name of its function and the text of its arguments as
/// it came, read as JSON where it is JSON. Sent back, they are what they were.
pub proof fn tool_calls_are_passed_on(choices: Seq<ChoiceView>, usage: Option<OpenAiUsage>, i: int)
    requires
        choices.len() > 0,
    ensures
        match openai_completion(choices, usage) {
            Ok(completion) => {
                &&& choices[0].tool_calls is None ==> completion.tool_calls.len() == 0
                &&& choices[0].tool_calls is Some ==> completion.tool_calls.len()
                    == choices[0].tool_calls->0.len()
                &&& choices[0].tool_calls is Some && 0 <= i < choices[0].tool_calls->0.len() ==> {
                    let sent = choices[0].tool_calls->0[i];
                    let call = completion.tool_calls[i];
                    &&& call.id == sent.id
                    &&& call.name == sent.name
                    &&& call.arguments_raw == Some(sent.arguments)
                    &&& match parsed(sent.arguments) {
                        Ok(tree) => call.arguments == tree && call.arguments_parse_error is None,
                        Err(message) => call.arguments == JsonTree::Null
                            && call.arguments_parse_error == Some(message),
                    }
                    &&& openai_call(call).id == sent.id
                    &&& openai_call(call).name == sent.name
                    &&& openai_call(call).arguments == sent.arguments
                    &&& openai_call(call).type_ == Some("function"@)
                }
            },
            Err(_) => false,
        },
{
}

/// What the first choice says is what the answer says: its text, or the texts of
/// its pieces, one behind the other, where a piece that is no text is an empty
/// one. An answer tells why it ended and what it cost, where the API does.
pub proof fn first_choice_is_the_answer(choices: Seq<ChoiceView>, usage: Option<OpenAiUsage>)
    ensures
        choices.len() == 0 ==> openai_completion(choices, usage) == Err::<
            crate::models::CompletionView,
            AiErrorView,
        >(AiErrorView::Other("No choices in response"@)),
        choices.len() > 0 ==> match openai_completion(choices, usage) {
            Ok(completion) => {
                &&& match choices[0].content {
                    None => completion.content.len() == 0 && completion.content_parts.len() == 0,
                    Some(ResponseContentView::Plain(text)) => {
                        &&& completion.content == text
                        &&& text.len() == 0 ==> completion.content_parts.len() == 0
                        &&& text.len() > 0 ==> completion.content_parts == seq![
                            PartView::Text(text),
                        ]
                    },
                    Some(ResponseContentView::Parts(parts)) => {
                        &&& completion.content_parts.len() == parts.len()
                        &&& completion.content == said_in(parts)
                        &&& forall|i: int|
                            0 <= i < parts.len() ==> #[trigger] completion.content_parts[i] == (
                            match parts[i] {
                                ResponsePartView::Text(text) => PartView::Text(text),
                                ResponsePartView::Other => PartView::Text(Seq::empty()),
                            })
                    },
                }
                &&& match choices[0].finish_reason {
                    Some(reason) => completion.stop_reason == reason,
                    None => completion.stop_reason.len() == 0,
                }
                &&& match usage {
                    Some(usage) => completion.usage.input_tokens == usage.prompt_tokens
                        && completion.usage.output_tokens == usage.completion_tokens,
                    None => completion.usage.input_tokens == 0 && completion.usage.output_tokens
                        == 0,
                }
                &&& completion.usage.thinking_tokens == 0
            },
            Err(_) => false,
        },
{
    if choices.len() > 0 {
        match choices[0].content {
            Some(ResponseContentView::Plain(text)) => {
                lemma_one_text(text);
                if text.len() == 0 {
                    assert(text =~= Seq::empty());
                }
            },
            Some(ResponseContentView::Parts(parts)) => {
                lemma_said(parts, openai_completion(choices, usage)->Ok_0.content_parts);
            },
            None => {},
        }
    }
}

/// The texts among pieces, one behind the other.
pub open spec fn said_in(parts: Seq<ResponsePartView>) -> Seq<char>
    decreases parts.len(),
{
    if parts.len() == 0 {
        Seq::empty()
    } else {
        said_in(parts.drop_last()) + match parts.last() {
            ResponsePartView::Text(text) => text,
            ResponsePartView::Other => Seq::empty(),
        }
    }
}

proof fn lemma_one_text(text: Seq<char>)
    ensures
        text_in(seq![PartView::Text(text)]) == text,
        text_in(Seq::empty()) == Seq::<char>::empty(),
{
    let one = seq![PartView::Text(text)];
    assert(one.drop_last() =~= Seq::empty());
    assert(text_in(one.drop_last()) =~= Seq::<char>::empty());
    assert(Seq::<char>::empty() + text =~= text);
}

proof fn lemma_said(parts: Seq<ResponsePartView>, read: Seq<PartView>)
    requires
        read.len() == parts.len(),
        forall|i: int|
            0 <= i < parts.len() ==> #[trigger] read[i] == (match parts[i] {
                ResponsePartView::Text(text) => PartView::Text(text),
                ResponsePartView::Other => PartView::Text(Seq::empty()),
            }),
    ensures
        text_in(read) == said_in(parts),
    decreases parts.len(),
{
    if parts.len() > 0 {
        let n = parts.len() - 1;
        let front = read.drop_last();
        assert forall|i: int| 0 <= i < n implies #[trigger] front[i] == (match parts.drop_last()[i] {
            ResponsePartView::Text(text) => PartView::Text(text),
            ResponsePartView::Other => PartView::Text(Seq::empty()),
        }) by {
            assert(read[i] == front[i]);
        }
        lemma_said(parts.drop_last(), front);
        assert(read[n] == read.last());
    }
}

/// The text of pieces is read piece by piece, and pictures say nothing.
pub proof fn text_is_read_in_order(a: Seq<PartView>, b: Seq<PartView>, text: Seq<char>)
    ensures
        text_in(a + b) == text_in(a) + text_in(b),
        texts_among(a + b) == texts_among(a) + texts_among(b),
        text_in(seq![PartView::Text(text)]) == text,
        texts_among(seq![PartView::Text(text)]) == seq![text],
        forall|part: PartView|
            part is Image ==> text_in(#[trigger] seq![part]).len() == 0 && texts_among(
                seq![part],
            ).len() == 0,
    decreases b.len(),
{
    lemma_one_text(text);
    let one = seq![PartView::Text(text)];
    assert(one.drop_last() =~= Seq::empty());
    assert(texts_among(one.drop_last()) =~= Seq::empty());
    assert(texts_among(one) =~= seq![text]);
    assert forall|part: PartView| part is Image implies text_in(#[trigger] seq![part]).len() == 0
        && texts_among(seq![part]).len() == 0 by {
        assert(seq![part].drop_last() =~= Seq::empty());
        assert(text_in(seq![part].drop_last()).len() == 0);
        assert(texts_among(seq![part].drop_last()).len() == 0);
    }
    if b.len() == 0 {
        assert(a + b =~= a);
        assert(text_in(a) + text_in(b) =~= text_in(a));
        assert(texts_among(a) + texts_among(b) =~= texts_among(a));
    } else {
        assert((a + b).drop_last() =~= a + b.drop_last());
        text_is_read_in_order(a, b.drop_last(), text);
        assert(text_in(a + b) =~= text_in(a) + text_in(b));
        assert(texts_among(a + b) =~= texts_among(a) + texts_among(b));
    }
}

/// The texts of an answer are those of its pieces, in order, without what is no
/// text.
pub proof fn texts_of_a_reply_are_read_in_order(
    a: Seq<ResponsePartView>,
    b: Seq<ResponsePartView>,
    text: Seq<char>,
)
    ensures
        content_texts(Some(ResponseContentView::Parts(a + b))) == content_texts(
            Some(ResponseContentView::Parts(a)),
        ) + content_texts(Some(ResponseContentView::Parts(b))),
        content_texts(
            Some(ResponseContentView::Parts(seq![ResponsePartView::Text(text)])),
        ) == seq![PartView::Text(text)],
        content_texts(Some(ResponseContentView::Parts(seq![ResponsePartView::Other]))).len() == 0,
        content_texts(Some(ResponseContentView::Plain(text))) == (if text.len() > 0 {
            seq![PartView::Text(text)]
        } else {
            Seq::empty()
        }),
        content_texts(None).len() == 0,
    decreases b.len(),
{
    let one = seq![ResponsePartView::Text(text)];
    assert(one.drop_last() =~= Seq::empty());
    assert(texts_of_parts(one.drop_last()) =~= Seq::empty());
    assert(texts_of_parts(one) =~= seq![PartView::Text(text)]);
    let other = seq![ResponsePartView::Other];
    assert(other.drop_last() =~= Seq::empty());
    assert(texts_of_parts(other.drop_last()).len() == 0);
    if b.len() == 0 {
        assert(a + b =~= a);
        assert(texts_of_parts(a) + texts_of_parts(b) =~= texts_of_parts(a));
    } else {
        assert((a + b).drop_last() =~= a + b.drop_last());
        texts_of_a_reply_are_read_in_order(a, b.drop_last(), text);
        assert(texts_of_parts(a + b) =~= texts_of_parts(a) + texts_of_parts(b));
    }
}

/// The blocks of an answer are read one behind the other.
pub proof fn blocks_are_read_in_order(a: Seq<BlockView>, b: Seq<BlockView>)
    ensures
        block_parts(a + b) == block_parts(a) + block_parts(b),
        block_calls(a + b) == block_calls(a) + block_calls(b),
        block_texts(a + b) == block_texts(a) + block_texts(b),
        block_parts(Seq::empty()).len() == 0,
        block_calls(Seq::empty()).len() == 0,
        block_texts(Seq::empty()).len() == 0,
    decreases b.len(),
{
    if b.len() == 0 {
        assert(a + b =~= a);
        assert(block_parts(a) + block_parts(b) =~= block_parts(a));
        assert(block_calls(a) + block_calls(b) =~= block_calls(a));
        assert(block_texts(a) + block_texts(b) =~= block_texts(a));
    } else {
        assert((a + b).drop_last() =~= a + b.drop_last());
        blocks_are_read_in_order(a, b.drop_last());
        assert(block_parts(a + b) =~= block_parts(a) + block_parts(b));
        assert(block_calls(a + b) =~= block_calls(a) + block_calls(b));
        assert(block_texts(a + b) =~= block_texts(a) + block_texts(b));
    }
}

/// A block of an answer is a piece or a tool call: a text is that text, a picture
/// is that picture or tells that it cannot be read, a tool call is that call, and
/// the outcome of a tool is a text.
pub proof fn each_block_is_read_as_what_it_is(block: BlockView)
    ensures
        match block {
            BlockView::Text { text, .. } => {
                &&& block_parts(seq![block]) == seq![PartView::Text(text)]
                &&& block_texts(seq![block]) == seq![PartView::Text(text)]
                &&& block_calls(seq![block]).len() == 0
            },
            BlockView::Image { media_type, data } => {
                &&& base64_bytes(data) is Some ==> block_parts(seq![block]) == seq![
                    PartView::Image { media_type, data: base64_bytes(data)->0 },
                ]
                &&& base64_bytes(data) is None ==> block_parts(seq![block]) == seq![
                    PartView::Text("[image decode failed: "@ + media_type + "]"@),
                ]
                &&& block_texts(seq![block]).len() == 0
                &&& block_calls(seq![block]).len() == 0
            },
            BlockView::ToolUse { id, name, input } => {
                &&& block_parts(seq![block]).len() == 0
                &&& block_texts(seq![block]).len() == 0
                &&& block_calls(seq![block]).len() == 1
                &&& block_calls(seq![block])[0].id == id
                &&& block_calls(seq![block])[0].name == name
                &&& block_calls(seq![block])[0].arguments == input
                &&& block_calls(seq![block])[0].arguments_raw is None
                &&& block_calls(seq![block])[0].arguments_parse_error is None
            },
            BlockView::ToolResult { content, .. } => {
                &&& block_parts(seq![block]) == seq![PartView::Text(content)]
                &&& block_texts(seq![block]).len() == 0
                &&& block_calls(seq![block]).len() == 0
            },
        },
{
    let one = seq![block];
    assert(one.drop_last() =~= Seq::empty());
    assert(one.last() == block);
    assert(block_parts(one.drop_last()) =~= Seq::empty());
    assert(block_calls(one.drop_last()) =~= Seq::empty());
    assert(block_texts(one.drop_last()) =~= Seq::empty());
    match block {
        BlockView::Text { text, .. } => {
            assert(block_parts(one) =~= seq![PartView::Text(text)]);
            assert(block_texts(one) =~= seq![PartView::Text(text)]);
        },
        BlockView::Image { media_type, data } => {
            if base64_bytes(data) is Some {
                assert(block_parts(one) =~= seq![
                    PartView::Image { media_type, data: base64_bytes(data)->0 },
                ]);
            } else {
                assert(block_parts(one) =~= seq![
                    PartView::Text("[image decode failed: "@ + media_type + "]"@),
                ]);
            }
        },
        BlockView::ToolUse { .. } => {},
        BlockView::ToolResult { content, .. } => {
            assert(block_parts(one) =~= seq![PartView::Text(content)]);
        },
    }
}

/// An answer of the Anthropic API ends for the reason that it gives, and its cost
/// is what it tells: tokens that went in as input, those that came out as output.
pub proof fn anthropic_answer_tells_its_end(
    blocks: Seq<BlockView>,
    reason: Option<Seq<char>>,
    usage: AnthropicUsage,
)
    ensures
        ({
            let completion = completion_of(
                block_parts(blocks),
                block_calls(blocks),
                text_or_empty(reason),
                anthropic_tokens(usage),
            );
            &&& completion.content == text_in(block_parts(blocks))
            &&& completion.content_parts == block_parts(blocks)
            &&& completion.tool_calls == block_calls(blocks)
            &&& reason is Some ==> completion.stop_reason == reason->0
            &&& reason is None ==> completion.stop_reason.len() == 0
            &&& completion.usage.input_tokens == usage.input_tokens
            &&& completion.usage.output_tokens == usage.output_tokens
            &&& completion.usage.thinking_tokens == 0
        }),
{
}

/// A refusal is a rate limit on 429, with ten seconds to wait on the OpenAI API
/// and thirty on the Anthropic one; on 401 of the OpenAI API it is about the key;
/// and any other is told with its status. What the API said goes along.
pub proof fn refusals_tell_what_they_are(status: u16, body: Seq<char>)
    ensures
        status == 429 ==> openai_refusal(status, body) == (AiErrorView::RateLimited {
            retry_after: 10,
            message: body,
        }),
        status == 401 ==> openai_refusal(status, body) == AiErrorView::Auth(body),
        status != 429 && status != 401 ==> openai_refusal(status, body) == (AiErrorView::Api {
            status,
            message: body,
        }),
        status == 429 ==> anthropic_refusal(status, body) == (AiErrorView::RateLimited {
            retry_after: 30,
            message: body,
        }),
        status != 429 ==> anthropic_refusal(status, body) == (AiErrorView::Api {
            status,
            message: body,
        }),
{
}

/// A streamed answer is awaited until its end, which is its outcome, or until an
/// error, which is told. Where nothing comes in time, or the stream closes, the
/// error says which, and for how long nothing came.
pub proof fn awaited_answer_ends_as_told(wait: AnswerWait, event: EventView)
    ensures
        match event {
            EventView::Delta { .. } => ended_by(event) is None,
            EventView::Done { content, tool_calls, usage, stop_reason } => match ended_by(event) {
                Some(Ok(completion)) => {
                    &&& completion.content == text_in(content)
                    &&& completion.content_parts == content
                    &&& completion.tool_calls == tool_calls
                    &&& completion.usage == usage
                    &&& completion.stop_reason == stop_reason
                },
                _ => false,
            },
            EventView::HttpError { status, message } => ended_by(event) == Some(
                Err::<crate::models::CompletionView, AiErrorView>(
                    AiErrorView::Api { status, message },
                ),
            ),
            EventView::Error(message) => ended_by(event) == Some(
                Err::<crate::models::CompletionView, AiErrorView>(AiErrorView::Stream(message)),
            ),
        },
        wait_end(wait, Arrival::TimedOut) == Some(
            Err::<crate::models::CompletionView, AiErrorView>(
                AiErrorView::Stream(
                    if wait.started {
                        "流式响应空闲超时（"@ + decimal_text(wait.idle_secs as nat)
                            + "s 无新数据）"@
                    } else {
                        "等待首个事件超时（"@ + decimal_text(wait.first_secs as nat)
                            + "s 无响应）"@
                    },
                ),
            ),
        ),
        wait_end(wait, Arrival::Closed) == Some(
            Err::<crate::models::CompletionView, AiErrorView>(
                AiErrorView::Stream(
                    if wait.started {
                        "stream 在 Done 之前关闭"@
                    } else {
                        "stream 在发送任何事件前关闭"@
                    },
                ),
            ),
        ),
{
}

} // verus!
