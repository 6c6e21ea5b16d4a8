//! Models, messages and what a model answers.
use crate::decimal::Decimal;
use crate::json::{tree_of, JsonTree};
use crate::text::{concat, decimal, decimal_text, same, texts};
use vstd::prelude::*;

verus! {

/// The API that a model speaks.
#[derive(Clone, Copy, Debug, PartialEq, Eq, Structural)]
pub enum ApiType {
    OpenAiCompletions,
    AnthropicMessages,
}

/// The name under which the OpenAI API takes the limit on output tokens.
#[derive(Clone, Copy, Debug, PartialEq, Eq, Structural)]
pub enum MaxTokensField {
    MaxTokens,
    MaxCompletionTokens,
}

impl Default for MaxTokensField {
    fn default() -> (field: MaxTokensField)
        ensures
            field == MaxTokensField::MaxTokens,
    {
        MaxTokensField::MaxTokens
    }
}

impl MaxTokensField {
    /// The field by its name in settings and requests.
    pub fn from_name(name: &str) -> (field: Option<MaxTokensField>)
        ensures
            field == (if name@ == "max_tokens"@ {
                Some(MaxTokensField::MaxTokens)
            } else if name@ == "max_completion_tokens"@ {
                Some(MaxTokensField::MaxCompletionTokens)
            } else {
                None
            }),
    {
        if same(name, "max_tokens") {
            Some(MaxTokensField::MaxTokens)
        } else if same(name, "max_completion_tokens") {
            Some(MaxTokensField::MaxCompletionTokens)
        } else {
            None
        }
    }
}

/// The limit on output tokens for the Anthropic API, which asks for one, where
/// none is set.
pub const ANTHROPIC_UNCONFIGURED_MAX_TOKENS: u32 = 4096;

/// A model: what it can do and how it is reached.
#[derive(Clone, Debug)]
pub struct Model {
    pub id: String,
    pub name: String,
    pub api: ApiType,
    pub provider: String,
    pub base_url: String,
    pub api_key: String,
    /// Tokens that fit into a conversation.
    pub context_window: u32,
    /// Tokens that an answer may have, 0 where that is not set.
    pub max_tokens: u32,
    /// Whether no limit on output tokens must be sent.
    pub omit_max_tokens: bool,
    pub max_tokens_field: MaxTokensField,
    /// Whether marks for the prompt cache are sent to the OpenAI API.
    pub prompt_cache: bool,
    pub supports_thinking: bool,
    pub supports_vision: bool,
    /// Dollars per million tokens.
    pub cost_per_million_input: Decimal,
    pub cost_per_million_output: Decimal,
    /// Seconds to wait for an answer, in place of the general settings.
    pub timeout_secs: Option<u64>,
}

/// A piece of a message.
#[derive(Debug)]
pub enum ContentPart {
    Text { text: String },
    /// A picture in its own bytes.
    Image { media_type: String, data: Vec<u8> },
}

/// A piece of a message as a value.
pub enum PartView {
    Text(Seq<char>),
    Image { media_type: Seq<char>, data: Seq<u8> },
}

impl View for ContentPart {
    type V = PartView;

    open spec fn view(&self) -> PartView {
        match self {
            ContentPart::Text { text } => PartView::Text(text@),
            ContentPart::Image { media_type, data } => PartView::Image {
                media_type: media_type@,
                data: data@,
            },
        }
    }
}

/// Pieces as values.
pub open spec fn parts_of(parts: Seq<ContentPart>) -> Seq<PartView> {
    parts.map_values(|p: ContentPart| p@)
}

impl Clone for ContentPart {
    fn clone(&self) -> (copy: ContentPart)
        ensures
            copy@ == self@,
    {
        match self {
            ContentPart::Text { text } => ContentPart::Text { text: text.clone() },
            ContentPart::Image { media_type, data } => {
                let bytes = data.clone();
                assert(bytes@ =~= data@);
                ContentPart::Image { media_type: media_type.clone(), data: bytes }
            },
        }
    }
}

/// A copy of a list of pieces.
pub fn copy_parts(parts: &Vec<ContentPart>) -> (copy: Vec<ContentPart>)
    ensures
        parts_of(copy@) == parts_of(parts@),
{
    let mut copy: Vec<ContentPart> = Vec::new();
    let mut i: usize = 0;
    while i < parts.len()
        invariant
            i <= parts@.len(),
            copy@.len() == i,
            forall|j: int| 0 <= j < i ==> (#[trigger] copy@[j])@ == parts@[j]@,
        decreases parts@.len() - i,
    {
        copy.push(parts[i].clone());
        i = i + 1;
    }
    assert(parts_of(copy@) =~= parts_of(parts@));
    copy
}

impl ContentPart {
    /// A piece of text.
    pub fn text(s: &str) -> (part: ContentPart)
        ensures
            part@ == PartView::Text(s@),
    {
        ContentPart::Text { text: s.to_owned() }
    }

    /// A picture.
    pub fn image(media_type: &str, data: Vec<u8>) -> (part: ContentPart)
        ensures
            part@ == (PartView::Image { media_type: media_type@, data: data@ }),
    {
        ContentPart::Image { media_type: media_type.to_owned(), data }
    }
}

/// The texts among these pieces.
pub open spec fn texts_among(parts: Seq<PartView>) -> Seq<Seq<char>>
    decreases parts.len(),
{
    if parts.len() == 0 {
        Seq::empty()
    } else {
        match parts.last() {
            PartView::Text(text) => texts_among(parts.drop_last()).push(text),
            _ => texts_among(parts.drop_last()),
        }
    }
}

/// All texts among these pieces, one behind the other.
pub open spec fn text_in(parts: Seq<PartView>) -> Seq<char>
    decreases parts.len(),
{
    if parts.len() == 0 {
        Seq::empty()
    } else {
        match parts.last() {
            PartView::Text(text) => text_in(parts.drop_last()) + text,
            _ => text_in(parts.drop_last()),
        }
    }
}

/// All texts among these pieces, one behind the other.
pub fn joined_parts(parts: &Vec<ContentPart>) -> (text: String)
    ensures
        text@ == text_in(parts_of(parts@)),
{
    let ghost all = parts_of(parts@);
    let mut out = String::new();
    let mut i: usize = 0;
    assert(all.take(0) =~= Seq::empty());
    while i < parts.len()
        invariant
            i <= parts@.len(),
            all == parts_of(parts@),
            out@ == text_in(all.take(i as int)),
        decreases parts@.len() - i,
    {
        assert(all.take(i + 1).drop_last() =~= all.take(i as int));
        assert(all.take(i + 1).last() == parts@[i as int]@);
        if let ContentPart::Text { text } = &parts[i] {
            out.append(text.as_str());
        }
        i = i + 1;
    }
    assert(all.take(all.len() as int) =~= all);
    out
}

/// The texts among these pieces.
pub fn text_parts(parts: &Vec<ContentPart>) -> (list: Vec<String>)
    ensures
        texts(list@) == texts_among(parts_of(parts@)),
{
    let ghost all = parts_of(parts@);
    let mut list: Vec<String> = Vec::new();
    let mut i: usize = 0;
    assert(all.take(0) =~= Seq::empty());
    assert(texts(list@) =~= Seq::empty());
    while i < parts.len()
        invariant
            i <= parts@.len(),
            all == parts_of(parts@),
            texts(list@) == texts_among(all.take(i as int)),
        decreases parts@.len() - i,
    {
        let ghost before = list@;
        assert(all.take(i + 1).drop_last() =~= all.take(i as int));
        assert(all.take(i + 1).last() == parts@[i as int]@);
        if let ContentPart::Text { text } = &parts[i] {
            list.push(text.clone());
            assert(texts(list@) =~= texts(before).push(text@));
        }
        i = i + 1;
    }
    assert(all.take(all.len() as int) =~= all);
    list
}

/// A call of a tool that a model asks for.
#[derive(Debug)]
pub struct ToolCall {
    pub id: String,
    pub name: String,
    /// The arguments, `null` where the model's text for them is not JSON.
    pub arguments: serde_json::Value,
    /// The model's text for the arguments.
    pub arguments_raw: Option<String>,
    /// What is wrong with that text.
    pub arguments_parse_error: Option<String>,
}

/// A call of a tool as a value.
pub struct ToolCallView {
    pub id: Seq<char>,
    pub name: Seq<char>,
    pub arguments: JsonTree,
    pub arguments_raw: Option<Seq<char>>,
    pub arguments_parse_error: Option<Seq<char>>,
}

/// An optional text as a value.
pub open spec fn opt_text(s: Option<String>) -> Option<Seq<char>> {
    match s {
        Some(s) => Some(s@),
        None => None,
    }
}

impl View for ToolCall {
    type V = ToolCallView;

    open spec fn view(&self) -> ToolCallView {
        ToolCallView {
            id: self.id@,
            name: self.name@,
            arguments: tree_of(self.arguments),
            arguments_raw: opt_text(self.arguments_raw),
            arguments_parse_error: opt_text(self.arguments_parse_error),
        }
    }
}

/// Calls as values.
pub open spec fn calls_of(calls: Seq<ToolCall>) -> Seq<ToolCallView> {
    calls.map_values(|c: ToolCall| c@)
}

impl Clone for ToolCall {
    fn clone(&self) -> (copy: ToolCall)
        ensures
            copy@ == self@,
    {
        ToolCall {
            id: self.id.clone(),
            name: self.name.clone(),
            arguments: self.arguments.clone(),
            arguments_raw: self.arguments_raw.clone(),
            arguments_parse_error: self.arguments_parse_error.clone(),
        }
    }
}

/// Who says a message.
#[derive(Clone, Copy, Debug, PartialEq, Eq, Structural)]
pub enum Role {
    System,
    User,
    Assistant,
    /// The outcome of a tool call.
    Tool,
}

/// A message of a conversation.
#[derive(Clone, Debug)]
pub struct Message {
    pub role: Role,
    pub content: Vec<ContentPart>,
    /// The call that a `Tool` message answers.
    pub tool_call_id: Option<String>,
    /// The calls that an `Assistant` message asks for.
    pub tool_calls: Option<Vec<ToolCall>>,
}

/// A message as a value.
pub struct MessageView {
    pub role: Role,
    pub content: Seq<PartView>,
    pub tool_call_id: Option<Seq<char>>,
    pub tool_calls: Option<Seq<ToolCallView>>,
}

impl View for Message {
    type V = MessageView;

    open spec fn view(&self) -> MessageView {
        MessageView {
            role: self.role,
            content: parts_of(self.content@),
            tool_call_id: opt_text(self.tool_call_id),
            tool_calls: match self.tool_calls {
                Some(calls) => Some(calls_of(calls@)),
                None => None,
            },
        }
    }
}

/// Messages as values.
pub open spec fn messages_of(messages: Seq<Message>) -> Seq<MessageView> {
    messages.map_values(|m: Message| m@)
}

/// A message of one text.
pub open spec fn plain_message(role: Role, text: Seq<char>) -> MessageView {
    MessageView { role, content: seq![PartView::Text(text)], tool_call_id: None, tool_calls: None }
}

/// Whether a piece is a picture.
pub open spec fn is_image(part: PartView) -> bool {
    part is Image
}

impl Message {
    /// A message of one text.
    pub fn text(role: Role, text: &str) -> (message: Message)
        ensures
            message@ == plain_message(role, text@),
    {
        let message = Message {
            role,
            content: vec![ContentPart::text(text)],
            tool_call_id: None,
            tool_calls: None,
        };
        assert(message@.content =~= seq![PartView::Text(text@)]);
        message
    }

    /// The outcome of a tool call.
    pub fn tool_result(id: &str, content: &str) -> (message: Message)
        ensures
            message@ == (MessageView {
                tool_call_id: Some(id@),
                ..plain_message(Role::Tool, content@)
            }),
    {
        let mut message = Message::text(Role::Tool, content);
        message.tool_call_id = Some(id.to_owned());
        message
    }

    /// A message of the model that asks for tool calls.
    pub fn assistant_with_tool_calls(text: &str, calls: Vec<ToolCall>) -> (message: Message)
        ensures
            message@ == (MessageView {
                tool_calls: Some(calls_of(calls@)),
                ..plain_message(Role::Assistant, text@)
            }),
    {
        let mut message = Message::text(Role::Assistant, text);
        message.tool_calls = Some(calls);
        message
    }

    pub fn user(text: &str) -> (message: Message)
        ensures
            message@ == plain_message(Role::User, text@),
    {
        Message::text(Role::User, text)
    }

    pub fn system(text: &str) -> (message: Message)
        ensures
            message@ == plain_message(Role::System, text@),
    {
        Message::text(Role::System, text)
    }

    pub fn assistant(text: &str) -> (message: Message)
        ensures
            message@ == plain_message(Role::Assistant, text@),
    {
        Message::text(Role::Assistant, text)
    }

    /// This message with a picture behind its content.
    pub fn with_image(self, media_type: &str, data: Vec<u8>) -> (message: Message)
        ensures
            message@ == (MessageView {
                content: self@.content.push(
                    PartView::Image { media_type: media_type@, data: data@ },
                ),
                ..self@
            }),
    {
        let mut message = self;
        let ghost bytes = data@;
        message.content.push(ContentPart::image(media_type, data));
        assert(message@.content =~= self@.content.push(
            PartView::Image { media_type: media_type@, data: bytes },
        ));
        message
    }

    /// The texts of the message, one behind the other.
    pub fn as_text(&self) -> (text: String)
        ensures
            text@ == text_in(self@.content),
    {
        joined_parts(&self.content)
    }

    /// Whether the message holds a picture.
    pub fn has_image(&self) -> (b: bool)
        ensures
            b == (exists|i: int| 0 <= i < self@.content.len() && is_image(#[trigger] self@.content[i])),
    {
        let mut i: usize = 0;
        while i < self.content.len()
            invariant
                i <= self.content@.len(),
                forall|j: int| 0 <= j < i ==> !is_image(#[trigger] self@.content[j]),
            decreases self.content@.len() - i,
        {
            assert(self@.content[i as int] == self.content@[i as int]@);
            if let ContentPart::Image { .. } = &self.content[i] {
                assert(is_image(self@.content[i as int]));
                return true;
            }
            i = i + 1;
        }
        false
    }

    /// The texts of the message, one behind the other, if it has any.
    pub fn joined_text(&self) -> (text: Option<String>)
        ensures
            opt_text(text) == (if texts_among(self@.content).len() == 0 {
                None
            } else {
                Some(text_in(self@.content))
            }),
    {
        let list = text_parts(&self.content);
        assert(texts(list@).len() == list@.len());
        if list.len() == 0 {
            None
        } else {
            Some(joined_parts(&self.content))
        }
    }
}

/// A message has text exactly if one of its pieces is a text.
pub proof fn text_comes_from_text_parts(parts: Seq<PartView>)
    ensures
        texts_among(parts).len() > 0 <==> exists|i: int|
            0 <= i < parts.len() && (#[trigger] parts[i]) is Text,
    decreases parts.len(),
{
    if parts.len() > 0 {
        let front = parts.drop_last();
        text_comes_from_text_parts(front);
        if parts.last() is Text {
            assert(parts[parts.len() - 1] is Text);
        } else if texts_among(parts).len() > 0 {
            let i = choose|i: int| 0 <= i < front.len() && (#[trigger] front[i]) is Text;
            assert(parts[i] is Text);
        } else if exists|i: int| 0 <= i < parts.len() && (#[trigger] parts[i]) is Text {
            let i = choose|i: int| 0 <= i < parts.len() && (#[trigger] parts[i]) is Text;
            assert(front[i] is Text);
        }
    }
}

/// Tokens that a request has cost.
#[derive(Clone, Copy, Debug, PartialEq, Eq, Structural)]
pub struct TokenUsage {
    pub input_tokens: u32,
    pub output_tokens: u32,
    pub thinking_tokens: u32,
}

/// No tokens.
pub open spec fn no_usage() -> TokenUsage {
    TokenUsage { input_tokens: 0, output_tokens: 0, thinking_tokens: 0 }
}

impl Default for TokenUsage {
    fn default() -> (usage: TokenUsage)
        ensures
            usage == no_usage(),
    {
        TokenUsage { input_tokens: 0, output_tokens: 0, thinking_tokens: 0 }
    }
}

impl TokenUsage {
    /// The counts in words.
    pub fn text(&self) -> (text: String)
        ensures
            text@ == usage_text(*self),
    {
        let mut text = concat("↑", decimal(self.input_tokens as u64).as_str());
        text.append(" ↓");
        text.append(decimal(self.output_tokens as u64).as_str());
        if self.thinking_tokens > 0 {
            text.append(" (");
            text.append(decimal(self.thinking_tokens as u64).as_str());
            text.append(" thinking)");
        }
        text
    }
}

/// The counts in words.
pub open spec fn usage_text(usage: TokenUsage) -> Seq<char> {
    let counts = "↑"@ + decimal_text(usage.input_tokens as nat) + " ↓"@ + decimal_text(
        usage.output_tokens as nat,
    );
    if usage.thinking_tokens > 0 {
        counts + " ("@ + decimal_text(usage.thinking_tokens as nat) + " thinking)"@
    } else {
        counts
    }
}

/// What a model answers.
#[derive(Clone, Debug)]
pub struct Completion {
    /// The texts of `content_parts`, one behind the other.
    pub content: String,
    pub content_parts: Vec<ContentPart>,
    pub tool_calls: Vec<ToolCall>,
    pub stop_reason: String,
    pub usage: TokenUsage,
}

/// An answer as a value.
pub struct CompletionView {
    pub content: Seq<char>,
    pub content_parts: Seq<PartView>,
    pub tool_calls: Seq<ToolCallView>,
    pub stop_reason: Seq<char>,
    pub usage: TokenUsage,
}

impl View for Completion {
    type V = CompletionView;

    open spec fn view(&self) -> CompletionView {
        CompletionView {
            content: self.content@,
            content_parts: parts_of(self.content_parts@),
            tool_calls: calls_of(self.tool_calls@),
            stop_reason: self.stop_reason@,
            usage: self.usage,
        }
    }
}

/// The answer with this content.
pub open spec fn completion_of(
    parts: Seq<PartView>,
    calls: Seq<ToolCallView>,
    stop_reason: Seq<char>,
    usage: TokenUsage,
) -> CompletionView {
    CompletionView {
        content: text_in(parts),
        content_parts: parts,
        tool_calls: calls,
        stop_reason,
        usage,
    }
}

impl Completion {
    /// The answer with this content.
    pub fn new(
        parts: Vec<ContentPart>,
        calls: Vec<ToolCall>,
        stop_reason: String,
        usage: TokenUsage,
    ) -> (completion: Completion)
        ensures
            completion@ == completion_of(
                parts_of(parts@),
                calls_of(calls@),
                stop_reason@,
                usage,
            ),
    {
        Completion {
            content: joined_parts(&parts),
            content_parts: parts,
            tool_calls: calls,
            stop_reason,
            usage,
        }
    }

    /// The text of the answer.
    pub fn as_text(&self) -> (text: String)
        ensures
            text@ == self@.content,
    {
        self.content.clone()
    }
}

/// A tool that a model may call.
#[derive(Clone, Debug)]
pub struct Tool {
    pub name: String,
    pub description: Option<String>,
    /// The JSON schema of the arguments.
    pub parameters: serde_json::Value,
    /// Whether the arguments must keep to the schema.
    pub strict: Option<bool>,
}

/// A tool as a value.
pub struct ToolView {
    pub name: Seq<char>,
    pub description: Option<Seq<char>>,
    pub parameters: JsonTree,
    pub strict: Option<bool>,
}

impl View for Tool {
    type V = ToolView;

    open spec fn view(&self) -> ToolView {
        ToolView {
            name: self.name@,
            description: opt_text(self.description),
            parameters: tree_of(self.parameters),
            strict: self.strict,
        }
    }
}

/// Tools as values.
pub open spec fn tools_of(tools: Seq<Tool>) -> Seq<ToolView> {
    tools.map_values(|t: Tool| t@)
}

/// Whether a model may call tools.
#[derive(Clone, Debug)]
pub enum ToolChoice {
    /// As it sees fit.
    Auto,
    /// Not at all.
    Never,
    /// At least one.
    Required,
    /// This one.
    Specific(String),
}

/// Such a choice as a value.
pub enum ToolChoiceView {
    Auto,
    Never,
    Required,
    Specific(Seq<char>),
}

impl View for ToolChoice {
    type V = ToolChoiceView;

    open spec fn view(&self) -> ToolChoiceView {
        match self {
            ToolChoice::Auto => ToolChoiceView::Auto,
            ToolChoice::Never => ToolChoiceView::Never,
            ToolChoice::Required => ToolChoiceView::Required,
            ToolChoice::Specific(name) => ToolChoiceView::Specific(name@),
        }
    }
}

impl Default for ToolChoice {
    fn default() -> (choice: ToolChoice)
        ensures
            choice@ == ToolChoiceView::Auto,
    {
        ToolChoice::Auto
    }
}

/// What happens in the course of a streamed answer.
#[derive(Clone, Debug)]
pub enum StreamEvent {
    /// More content.
    Delta { content: Vec<ContentPart>, usage: Option<TokenUsage> },
    /// The whole answer.
    Done {
        content: Vec<ContentPart>,
        tool_calls: Vec<ToolCall>,
        usage: TokenUsage,
        stop_reason: String,
    },
    /// The upstream refused.
    HttpError { status: u16, message: String },
    Error(String),
}

/// Such an event as a value.
pub enum EventView {
    Delta { content: Seq<PartView>, usage: Option<TokenUsage> },
    Done {
        content: Seq<PartView>,
        tool_calls: Seq<ToolCallView>,
        usage: TokenUsage,
        stop_reason: Seq<char>,
    },
    HttpError { status: u16, message: Seq<char> },
    Error(Seq<char>),
}

impl View for StreamEvent {
    type V = EventView;

    open spec fn view(&self) -> EventView {
        match self {
            StreamEvent::Delta { content, usage } => EventView::Delta {
                content: parts_of(content@),
                usage: *usage,
            },
            StreamEvent::Done { content, tool_calls, usage, stop_reason } => EventView::Done {
                content: parts_of(content@),
                tool_calls: calls_of(tool_calls@),
                usage: *usage,
                stop_reason: stop_reason@,
            },
            StreamEvent::HttpError { status, message } => EventView::HttpError {
                status: *status,
                message: message@,
            },
            StreamEvent::Error(message) => EventView::Error(message@),
        }
    }
}

/// Events as values.
pub open spec fn events_of(events: Seq<StreamEvent>) -> Seq<EventView> {
    events.map_values(|e: StreamEvent| e@)
}

} // verus!
