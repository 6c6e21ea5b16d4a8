//! What the OpenAI and Anthropic APIs answer, and the answer that it comes to.
use crate::error::{AiError, AiErrorView};
use crate::json::{null, outcome_of, parse, parsed, JsonTree};
use crate::models::{
    calls_of, completion_of, no_usage, opt_text, parts_of, Completion, CompletionView,
    ContentPart, PartView, TokenUsage, ToolCall, ToolCallView,
};
use crate::text::concat;
use crate::wire::{
    base64_bytes, base64_decode, blocks_of, openai_calls_of, AnthropicContentBlock, BlockView,
    OpenAiToolCall, OpenAiToolCallView,
};
use vstd::prelude::*;

verus! {

/// A piece of an answer. Only texts are of interest.
#[derive(Debug)]
pub enum OpenAiResponseContentPart {
    Text { text: String },
    Other,
}

/// The content of an answer: a text, or pieces.
#[derive(Debug)]
pub enum OpenAiResponseContent {
    Plain(String),
    Parts(Vec<OpenAiResponseContentPart>),
}

/// A piece of an answer as a value.
pub enum ResponsePartView {
    Text(Seq<char>),
    Other,
}

/// The content of an answer as a value.
pub enum ResponseContentView {
    Plain(Seq<char>),
    Parts(Seq<ResponsePartView>),
}

impl View for OpenAiResponseContentPart {
    type V = ResponsePartView;

    open spec fn view(&self) -> ResponsePartView {
        match self {
            OpenAiResponseContentPart::Text { text } => ResponsePartView::Text(text@),
            OpenAiResponseContentPart::Other => ResponsePartView::Other,
        }
    }
}

/// Pieces of an answer as values.
pub open spec fn response_parts_of(parts: Seq<OpenAiResponseContentPart>) -> Seq<ResponsePartView> {
    parts.map_values(|p: OpenAiResponseContentPart| p@)
}

impl View for OpenAiResponseContent {
    type V = ResponseContentView;

    open spec fn view(&self) -> ResponseContentView {
        match self {
            OpenAiResponseContent::Plain(text) => ResponseContentView::Plain(text@),
            OpenAiResponseContent::Parts(parts) => ResponseContentView::Parts(
                response_parts_of(parts@),
            ),
        }
    }
}

/// The content of an answer, if there is any, as a value.
pub open spec fn opt_content(content: Option<OpenAiResponseContent>) -> Option<
    ResponseContentView,
> {
    match content {
        Some(content) => Some(content@),
        None => None,
    }
}

/// Tokens that an answer has cost.
#[derive(Clone, Copy, Debug, PartialEq, Eq, Structural)]
pub struct OpenAiUsage {
    pub prompt_tokens: u32,
    pub completion_tokens: u32,
}

/// The tokens of an answer, none where it does not tell.
pub open spec fn usage_from(usage: Option<OpenAiUsage>) -> TokenUsage {
    match usage {
        Some(u) => TokenUsage {
            input_tokens: u.prompt_tokens,
            output_tokens: u.completion_tokens,
            thinking_tokens: 0,
        },
        None => no_usage(),
    }
}

/// The tokens of an answer, none where it does not tell.
pub fn openai_usage(usage: Option<OpenAiUsage>) -> (r: TokenUsage)
    ensures
        r == usage_from(usage),
{
    match usage {
        Some(u) => TokenUsage {
            input_tokens: u.prompt_tokens,
            output_tokens: u.completion_tokens,
            thinking_tokens: 0,
        },
        None => TokenUsage::default(),
    }
}

/// The message of an answer.
#[derive(Debug)]
pub struct OpenAiResponseMessage {
    pub content: Option<OpenAiResponseContent>,
    pub tool_calls: Option<Vec<OpenAiToolCall>>,
}

/// One of the answers that the model has to offer.
#[derive(Debug)]
pub struct OpenAiChoice {
    pub message: OpenAiResponseMessage,
    pub finish_reason: Option<String>,
}

/// An answer.
#[derive(Debug)]
pub struct OpenAiChatResponse {
    pub choices: Vec<OpenAiChoice>,
    pub usage: Option<OpenAiUsage>,
}

/// One of the answers as a value.
pub struct ChoiceView {
    pub content: Option<ResponseContentView>,
    pub tool_calls: Option<Seq<OpenAiToolCallView>>,
    pub finish_reason: Option<Seq<char>>,
}

impl View for OpenAiChoice {
    type V = ChoiceView;

    open spec fn view(&self) -> ChoiceView {
        ChoiceView {
            content: opt_content(self.message.content),
            tool_calls: opt_calls(self.message.tool_calls),
            finish_reason: opt_text(self.finish_reason),
        }
    }
}

/// Tool calls, if there are any, as values.
pub open spec fn opt_calls(calls: Option<Vec<OpenAiToolCall>>) -> Option<Seq<OpenAiToolCallView>> {
    match calls {
        Some(calls) => Some(openai_calls_of(calls@)),
        None => None,
    }
}

/// A piece of an answer. What is not a text counts as an empty one.
pub open spec fn response_part(part: ResponsePartView) -> PartView {
    match part {
        ResponsePartView::Text(text) => PartView::Text(text),
        ResponsePartView::Other => PartView::Text(Seq::empty()),
    }
}

/// The pieces of the content of an answer. An empty text is none, and what is
/// not a text counts as an empty one.
pub open spec fn content_parts(content: Option<ResponseContentView>) -> Seq<PartView> {
    match content {
        None => Seq::empty(),
        Some(ResponseContentView::Plain(text)) => if text.len() == 0 {
            Seq::empty()
        } else {
            seq![PartView::Text(text)]
        },
        Some(ResponseContentView::Parts(parts)) => parts.map_values(
            |p: ResponsePartView| response_part(p),
        ),
    }
}

/// The texts among the content of an answer. What is not a text is left out.
pub open spec fn content_texts(content: Option<ResponseContentView>) -> Seq<PartView> {
    match content {
        None => Seq::empty(),
        Some(ResponseContentView::Plain(text)) => if text.len() == 0 {
            Seq::empty()
        } else {
            seq![PartView::Text(text)]
        },
        Some(ResponseContentView::Parts(parts)) => texts_of_parts(parts),
    }
}

/// The texts among these pieces.
pub open spec fn texts_of_parts(parts: Seq<ResponsePartView>) -> Seq<PartView>
    decreases parts.len(),
{
    if parts.len() == 0 {
        Seq::empty()
    } else {
        match parts.last() {
            ResponsePartView::Text(text) => texts_of_parts(parts.drop_last()).push(
                PartView::Text(text),
            ),
            ResponsePartView::Other => texts_of_parts(parts.drop_last()),
        }
    }
}

/// A tool call with these arguments, read as JSON or not: where they are not,
/// they count as `null` and the call tells what is wrong.
pub open spec fn made_call(
    id: Seq<char>,
    name: Seq<char>,
    raw: Option<Seq<char>>,
    arguments: Result<JsonTree, Seq<char>>,
) -> ToolCallView {
    ToolCallView {
        id,
        name,
        arguments: match arguments {
            Ok(tree) => tree,
            Err(_) => JsonTree::Null,
        },
        arguments_raw: raw,
        arguments_parse_error: match arguments {
            Ok(_) => None,
            Err(message) => Some(message),
        },
    }
}

/// A tool call with these arguments, read as JSON or not.
pub fn make_call(
    id: String,
    name: String,
    raw: Option<String>,
    arguments: Result<serde_json::Value, String>,
) -> (call: ToolCall)
    ensures
        call@ == made_call(id@, name@, opt_text(raw), outcome_of(arguments)),
{
    match arguments {
        Ok(value) => ToolCall {
            id,
            name,
            arguments: value,
            arguments_raw: raw,
            arguments_parse_error: None,
        },
        Err(message) => ToolCall {
            id,
            name,
            arguments: null(),
            arguments_raw: raw,
            arguments_parse_error: Some(message),
        },
    }
}

/// The call that a tool call of an answer stands for.
pub open spec fn call_from(call: OpenAiToolCallView) -> ToolCallView {
    made_call(call.id, call.name, Some(call.arguments), parsed(call.arguments))
}

/// The calls of an answer.
pub open spec fn calls_from(calls: Option<Seq<OpenAiToolCallView>>) -> Seq<ToolCallView> {
    match calls {
        Some(calls) => calls.map_values(|c: OpenAiToolCallView| call_from(c)),
        None => Seq::empty(),
    }
}

/// The pieces and the tool calls of an answer.
pub fn extract_openai_response(
    content: Option<OpenAiResponseContent>,
    tool_calls: Option<Vec<OpenAiToolCall>>,
) -> (r: (Vec<ContentPart>, Vec<ToolCall>))
    ensures
        parts_of(r.0@) == content_parts(opt_content(content)),
        calls_of(r.1@) == calls_from(opt_calls(tool_calls)),
{
    let mut parts: Vec<ContentPart> = Vec::new();
    match &content {
        None => {},
        Some(OpenAiResponseContent::Plain(text)) => {
            if !text.as_str().is_empty() {
                parts.push(ContentPart::Text { text: text.clone() });
            }
            assert(parts_of(parts@) =~= content_parts(opt_content(content)));
        },
        Some(OpenAiResponseContent::Parts(list)) => {
            let mut i: usize = 0;
            while i < list.len()
                invariant
                    i <= list@.len(),
                    parts@.len() == i,
                    forall|j: int|
                        0 <= j < i ==> (#[trigger] parts@[j])@ == response_part(list@[j]@),
                decreases list@.len() - i,
            {
                parts.push(
                    ContentPart::Text {
                        text: match &list[i] {
                            OpenAiResponseContentPart::Text { text } => text.clone(),
                            OpenAiResponseContentPart::Other => String::new(),
                        },
                    },
                );
                i = i + 1;
            }
            assert(parts_of(parts@) =~= content_parts(opt_content(content)));
        },
    }
    assert(parts_of(parts@) =~= content_parts(opt_content(content)));
    let mut calls: Vec<ToolCall> = Vec::new();
    match &tool_calls {
        None => {},
        Some(list) => {
            let mut i: usize = 0;
            while i < list.len()
                invariant
                    i <= list@.len(),
                    calls@.len() == i,
                    forall|j: int| 0 <= j < i ==> (#[trigger] calls@[j])@ == call_from(list@[j]@),
                decreases list@.len() - i,
            {
                let call = &list[i];
                let arguments = parse(call.function.arguments.as_str());
                calls.push(
                    make_call(
                        call.id.clone(),
                        call.function.name.clone(),
                        Some(call.function.arguments.clone()),
                        arguments,
                    ),
                );
                i = i + 1;
            }
        },
    }
    assert(calls_of(calls@) =~= calls_from(opt_calls(tool_calls)));
    (parts, calls)
}

/// The texts among the content of an answer.
pub fn merge_openai_text(content: Option<OpenAiResponseContent>) -> (out: Vec<ContentPart>)
    ensures
        parts_of(out@) == content_texts(opt_content(content)),
{
    let mut out: Vec<ContentPart> = Vec::new();
    assert(parts_of(out@) =~= Seq::empty());
    match &content {
        None => {},
        Some(OpenAiResponseContent::Plain(text)) => {
            if !text.as_str().is_empty() {
                out.push(ContentPart::Text { text: text.clone() });
            }
            assert(parts_of(out@) =~= content_texts(opt_content(content)));
        },
        Some(OpenAiResponseContent::Parts(list)) => {
            let ghost all = response_parts_of(list@);
            let mut i: usize = 0;
            assert(all.take(0) =~= Seq::empty());
            while i < list.len()
                invariant
                    i <= list@.len(),
                    all == response_parts_of(list@),
                    parts_of(out@) == texts_of_parts(all.take(i as int)),
                decreases list@.len() - i,
            {
                let ghost before = out@;
                assert(all.take(i + 1).drop_last() =~= all.take(i as int));
                assert(all.take(i + 1).last() == list@[i as int]@);
                if let OpenAiResponseContentPart::Text { text } = &list[i] {
                    out.push(ContentPart::Text { text: text.clone() });
                    assert(parts_of(out@) =~= parts_of(before).push(PartView::Text(text@)));
                }
                i = i + 1;
            }
            assert(all.take(all.len() as int) =~= all);
        },
    }
    out
}

/// The text that is left of a picture that cannot be decoded.
pub open spec fn broken_image_text(media_type: Seq<char>) -> Seq<char> {
    "[image decode failed: "@ + media_type + "]"@
}

/// The piece that a block of an answer stands for, if any.
pub open spec fn block_part(block: BlockView) -> Option<PartView> {
    match block {
        BlockView::Text { text, .. } => Some(PartView::Text(text)),
        BlockView::Image { media_type, data } => match base64_bytes(data) {
            Some(bytes) => Some(PartView::Image { media_type, data: bytes }),
            None => Some(PartView::Text(broken_image_text(media_type))),
        },
        BlockView::ToolUse { .. } => None,
        BlockView::ToolResult { content, .. } => Some(PartView::Text(content)),
    }
}

/// The tool call that a block of an answer stands for, if any.
pub open spec fn block_call(block: BlockView) -> Option<ToolCallView> {
    match block {
        BlockView::ToolUse { id, name, input } => Some(
            ToolCallView {
                id,
                name,
                arguments: input,
                arguments_raw: None,
                arguments_parse_error: None,
            },
        ),
        _ => None,
    }
}

/// The pieces of the blocks of an answer.
pub open spec fn block_parts(blocks: Seq<BlockView>) -> Seq<PartView>
    decreases blocks.len(),
{
    if blocks.len() == 0 {
        Seq::empty()
    } else {
        match block_part(blocks.last()) {
            Some(part) => block_parts(blocks.drop_last()).push(part),
            None => block_parts(blocks.drop_last()),
        }
    }
}

/// The tool calls of the blocks of an answer.
pub open spec fn block_calls(blocks: Seq<BlockView>) -> Seq<ToolCallView>
    decreases blocks.len(),
{
    if blocks.len() == 0 {
        Seq::empty()
    } else {
        match block_call(blocks.last()) {
            Some(call) => block_calls(blocks.drop_last()).push(call),
            None => block_calls(blocks.drop_last()),
        }
    }
}

/// The pieces and the tool calls of the blocks of an answer.
pub fn extract_anthropic_response(blocks: &Vec<AnthropicContentBlock>) -> (r: (
    Vec<ContentPart>,
    Vec<ToolCall>,
))
    ensures
        parts_of(r.0@) == block_parts(blocks_of(blocks@)),
        calls_of(r.1@) == block_calls(blocks_of(blocks@)),
{
    let ghost all = blocks_of(blocks@);
    let mut parts: Vec<ContentPart> = Vec::new();
    let mut calls: Vec<ToolCall> = Vec::new();
    let mut i: usize = 0;
    assert(all.take(0) =~= Seq::empty());
    assert(parts_of(parts@) =~= Seq::empty());
    assert(calls_of(calls@) =~= Seq::empty());
    while i < blocks.len()
        invariant
            i <= blocks@.len(),
            all == blocks_of(blocks@),
            parts_of(parts@) == block_parts(all.take(i as int)),
            calls_of(calls@) == block_calls(all.take(i as int)),
        decreases blocks@.len() - i,
    {
        let ghost parts_before = parts@;
        let ghost calls_before = calls@;
        assert(all.take(i + 1).drop_last() =~= all.take(i as int));
        assert(all.take(i + 1).last() == blocks@[i as int]@);
        match &blocks[i] {
            AnthropicContentBlock::Text { text, .. } => {
                parts.push(ContentPart::Text { text: text.clone() });
            },
            AnthropicContentBlock::Image { media_type, data } => match base64_decode(
                data.as_str(),
            ) {
                Some(bytes) => {
                    parts.push(ContentPart::Image { media_type: media_type.clone(), data: bytes });
                },
                None => {
                    let mut text = concat("[image decode failed: ", media_type.as_str());
                    text.append("]");
                    parts.push(ContentPart::Text { text });
                },
            },
            AnthropicContentBlock::ToolUse { id, name, input } => {
                calls.push(
                    ToolCall {
                        id: id.clone(),
                        name: name.clone(),
                        arguments: input.clone(),
                        arguments_raw: None,
                        arguments_parse_error: None,
                    },
                );
            },
            AnthropicContentBlock::ToolResult { content, .. } => {
                parts.push(ContentPart::Text { text: content.clone() });
            },
        }
        proof {
            if parts@.len() > parts_before.len() {
                assert(parts_of(parts@) =~= parts_of(parts_before).push(parts@.last()@));
            }
            if calls@.len() > calls_before.len() {
                assert(calls_of(calls@) =~= calls_of(calls_before).push(calls@.last()@));
            }
        }
        i = i + 1;
    }
    assert(all.take(all.len() as int) =~= all);
    (parts, calls)
}

/// The texts of the blocks of an answer.
pub open spec fn block_texts(blocks: Seq<BlockView>) -> Seq<PartView>
    decreases blocks.len(),
{
    if blocks.len() == 0 {
        Seq::empty()
    } else {
        match blocks.last() {
            BlockView::Text { text, .. } => block_texts(blocks.drop_last()).push(
                PartView::Text(text),
            ),
            _ => block_texts(blocks.drop_last()),
        }
    }
}

/// The texts of the blocks of an answer.
pub fn merge_anthropic_text(blocks: &Vec<AnthropicContentBlock>) -> (out: Vec<ContentPart>)
    ensures
        parts_of(out@) == block_texts(blocks_of(blocks@)),
{
    let ghost all = blocks_of(blocks@);
    let mut out: Vec<ContentPart> = Vec::new();
    let mut i: usize = 0;
    assert(all.take(0) =~= Seq::empty());
    assert(parts_of(out@) =~= Seq::empty());
    while i < blocks.len()
        invariant
            i <= blocks@.len(),
            all == blocks_of(blocks@),
            parts_of(out@) == block_texts(all.take(i as int)),
        decreases blocks@.len() - i,
    {
        let ghost before = out@;
        assert(all.take(i + 1).drop_last() =~= all.take(i as int));
        assert(all.take(i + 1).last() == blocks@[i as int]@);
        if let AnthropicContentBlock::Text { text, .. } = &blocks[i] {
            out.push(ContentPart::Text { text: text.clone() });
            assert(parts_of(out@) =~= parts_of(before).push(PartView::Text(text@)));
        }
        i = i + 1;
    }
    assert(all.take(all.len() as int) =~= all);
    out
}

/// A text that may be there, empty where it is not.
pub open spec fn text_or_empty(text: Option<Seq<char>>) -> Seq<char> {
    match text {
        Some(text) => text,
        None => Seq::empty(),
    }
}

pub(crate) fn or_empty(text: Option<String>) -> (r: String)
    ensures
        r@ == text_or_empty(opt_text(text)),
{
    match text {
        Some(text) => text,
        None => String::new(),
    }
}

/// The answer of a chat completion: that of the first choice.
pub open spec fn openai_completion(choices: Seq<ChoiceView>, usage: Option<OpenAiUsage>) -> Result<
    CompletionView,
    AiErrorView,
> {
    if choices.len() == 0 {
        Err(AiErrorView::Other("No choices in response"@))
    } else {
        Ok(
            completion_of(
                content_parts(choices[0].content),
                calls_from(choices[0].tool_calls),
                text_or_empty(choices[0].finish_reason),
                usage_from(usage),
            ),
        )
    }
}

/// Choices as values.
pub open spec fn choices_of(choices: Seq<OpenAiChoice>) -> Seq<ChoiceView> {
    choices.map_values(|c: OpenAiChoice| c@)
}

/// The outcome of a call as a value.
pub open spec fn call_outcome(r: Result<Completion, AiError>) -> Result<
    CompletionView,
    AiErrorView,
> {
    match r {
        Ok(completion) => Ok(completion@),
        Err(e) => Err(e@),
    }
}

/// The answer of a chat completion.
pub fn completion_from_openai(response: OpenAiChatResponse) -> (r: Result<Completion, AiError>)
    ensures
        call_outcome(r) == openai_completion(choices_of(response.choices@), response.usage),
{
    let mut choices = response.choices;
    if choices.len() == 0 {
        return Err(AiError::Other("No choices in response".to_owned()));
    }
    assert(choices_of(response.choices@)[0] == response.choices@[0]@);
    let choice = choices.swap_remove(0);
    let (parts, calls) = extract_openai_response(choice.message.content, choice.message.tool_calls);
    Ok(Completion::new(parts, calls, or_empty(choice.finish_reason), openai_usage(response.usage)))
}

/// Tokens that an answer has cost.
#[derive(Clone, Copy, Debug, PartialEq, Eq, Structural)]
pub struct AnthropicUsage {
    pub input_tokens: u32,
    pub output_tokens: u32,
}

/// An answer.
#[derive(Debug)]
pub struct AnthropicResponse {
    pub content: Vec<AnthropicContentBlock>,
    pub stop_reason: Option<String>,
    pub usage: AnthropicUsage,
}

/// The tokens of an answer.
pub open spec fn anthropic_tokens(u: AnthropicUsage) -> TokenUsage {
    TokenUsage { input_tokens: u.input_tokens, output_tokens: u.output_tokens, thinking_tokens: 0 }
}

/// The answer of the Anthropic API.
pub fn completion_from_anthropic(response: AnthropicResponse) -> (completion: Completion)
    ensures
        completion@ == completion_of(
            block_parts(blocks_of(response.content@)),
            block_calls(blocks_of(response.content@)),
            text_or_empty(opt_text(response.stop_reason)),
            anthropic_tokens(response.usage),
        ),
{
    let (parts, calls) = extract_anthropic_response(&response.content);
    Completion::new(
        parts,
        calls,
        or_empty(response.stop_reason),
        TokenUsage {
            input_tokens: response.usage.input_tokens,
            output_tokens: response.usage.output_tokens,
            thinking_tokens: 0,
        },
    )
}

/// Seconds to wait after a rate limit of the OpenAI API.
pub const OPENAI_RETRY_AFTER: u64 = 10;

/// Seconds to wait after a rate limit of the Anthropic API.
pub const ANTHROPIC_RETRY_AFTER: u64 = 30;

/// The error for a refusal of the OpenAI API.
pub open spec fn openai_refusal(status: u16, body: Seq<char>) -> AiErrorView {
    if status == 429 {
        AiErrorView::RateLimited { retry_after: OPENAI_RETRY_AFTER, message: body }
    } else if status == 401 {
        AiErrorView::Auth(body)
    } else {
        AiErrorView::Api { status, message: body }
    }
}

/// The error for a refusal of the OpenAI API.
pub fn openai_status_error(status: u16, body: String) -> (e: AiError)
    ensures
        e@ == openai_refusal(status, body@),
{
    if status == 429 {
        AiError::RateLimited { retry_after: OPENAI_RETRY_AFTER, message: body }
    } else if status == 401 {
        AiError::Auth(body)
    } else {
        AiError::Api { status, message: body }
    }
}

/// The error for a refusal of the Anthropic API.
pub open spec fn anthropic_refusal(status: u16, body: Seq<char>) -> AiErrorView {
    if status == 429 {
        AiErrorView::RateLimited { retry_after: ANTHROPIC_RETRY_AFTER, message: body }
    } else {
        AiErrorView::Api { status, message: body }
    }
}

/// The error for a refusal of the Anthropic API.
pub fn anthropic_status_error(status: u16, body: String) -> (e: AiError)
    ensures
        e@ == anthropic_refusal(status, body@),
{
    if status == 429 {
        AiError::RateLimited { retry_after: ANTHROPIC_RETRY_AFTER, message: body }
    } else {
        AiError::Api { status, message: body }
    }
}

} // verus!
