//! A client of a model: what it sends, how long it waits, and what it makes of
//! the events of a streamed answer.
use crate::cache::{
    apply_anthropic_cache_breakpoints, apply_openai_cache_breakpoints, marked_messages,
    marked_request,
};
use crate::error::{AiError, AiErrorView};
use crate::json::{print, printed};
use crate::models::{
    calls_of, completion_of, messages_of, parts_of, text_parts, texts_among, ApiType, Completion,
    CompletionView, ContentPart, EventView, MaxTokensField, Message, MessageView, Model, PartView,
    Role, StreamEvent, Tool, ToolCall, ToolCallView, ToolChoice, ToolChoiceView, ToolView,
    ANTHROPIC_UNCONFIGURED_MAX_TOKENS,
};
use crate::params::{budget_tokens, GenerateParams, ParamsView};
use crate::reply::call_outcome;
use crate::server::{auth_headers, headers_of, key_headers};
use crate::text::{
    concat, copy_texts, decimal, decimal_text, is_slash, join, joined, number_of, opt_str,
    parse_number, same, same_ignoring_case, trim, trim_end_slashes, trimmed, trimmed_end, without_case,
};
use crate::wire::{
    anthropic_block, anthropic_choice, anthropic_messages_of, anthropic_tools_of, blocks_of,
    openai_calls_of, openai_choice, openai_messages_of, openai_part, openai_parts_of,
    openai_tools_of, system_blocks_of, to_anthropic_content_block, to_openai_content_part,
    AnthropicContentBlock, AnthropicMessage, AnthropicMessageView, AnthropicRequest,
    AnthropicRequestView, AnthropicSystemBlock, AnthropicTool, AnthropicToolChoice,
    AnthropicToolView, BlockView, OpenAiChatRequest, OpenAiContentPart, OpenAiContentView,
    OpenAiFunctionCall, OpenAiMessage, OpenAiMessageContent, OpenAiMessageView, OpenAiPartView,
    OpenAiRequestView, OpenAiTool, OpenAiToolCall, OpenAiToolCallView, OpenAiToolChoice,
    OpenAiToolView, SystemBlockView,
};
use vstd::prelude::*;

verus! {

/// Seconds until the first event of an answer has to be there.
pub const FIRST_EVENT_TIMEOUT_SECS: u64 = 100;

/// Seconds between two events of an answer.
pub const IDLE_TIMEOUT_SECS: u64 = 120;

// ---------------------------------------------------------------------------
// Settings out of the environment

/// Whether a setting says yes: it is `1` or `true`.
pub open spec fn says_yes(setting: Option<Seq<char>>) -> bool {
    match setting {
        Some(text) => text == "1"@ || without_case(text) == without_case("true"@),
        None => false,
    }
}

/// Whether a setting says no: it is `0` or `false`.
pub open spec fn says_no(setting: Option<Seq<char>>) -> bool {
    match setting {
        Some(text) => text == "0"@ || without_case(text) == without_case("false"@),
        None => false,
    }
}

/// Whether requests and replies are to be shown, by the setting for that.
pub fn debug_http_enabled(setting: Option<&str>) -> (b: bool)
    ensures
        b == says_yes(opt_str(setting)),
{
    match setting {
        Some(text) => same(text, "1") || same_ignoring_case(text, "true"),
        None => false,
    }
}

/// Whether a streamed answer is to tell its usage: unless the setting says no.
pub fn stream_include_usage(setting: Option<&str>) -> (b: bool)
    ensures
        b == !says_no(opt_str(setting)),
{
    match setting {
        Some(text) => !(same(text, "0") || same_ignoring_case(text, "false")),
        None => true,
    }
}

/// The seconds that a setting gives, if it is a number, or else the default.
pub open spec fn secs_set(setting: Option<Seq<char>>, default_secs: nat) -> nat {
    match setting {
        Some(text) => match number_of(text, u64::MAX as nat) {
            Some(n) => n,
            None => default_secs,
        },
        None => default_secs,
    }
}

/// The seconds that a setting gives, if it is a number, or else the default.
pub fn env_timeout_secs(setting: Option<&str>, default_secs: u64) -> (secs: u64)
    ensures
        secs == secs_set(opt_str(setting), default_secs as nat),
{
    match setting {
        Some(text) => match parse_number(text, u64::MAX) {
            Some(n) => n,
            None => default_secs,
        },
        None => default_secs,
    }
}

/// The seconds to wait: those of the model, if it has some, or else those of the
/// setting.
pub open spec fn timeout(
    model_timeout: Option<u64>,
    setting: Option<Seq<char>>,
    default_secs: nat,
) -> nat {
    match model_timeout {
        Some(secs) if secs > 0 => secs as nat,
        _ => secs_set(setting, default_secs),
    }
}

/// How long to wait for the first event of an answer, in seconds; 0 is without
/// end.
pub fn first_event_timeout_secs(model_timeout: Option<u64>, setting: Option<&str>) -> (secs: u64)
    ensures
        secs == timeout(model_timeout, opt_str(setting), FIRST_EVENT_TIMEOUT_SECS as nat),
{
    match model_timeout {
        Some(secs) if secs > 0 => secs,
        _ => env_timeout_secs(setting, FIRST_EVENT_TIMEOUT_SECS),
    }
}

/// How long to wait for each further event, in seconds; 0 is without end.
pub fn idle_timeout_secs(model_timeout: Option<u64>, setting: Option<&str>) -> (secs: u64)
    ensures
        secs == timeout(model_timeout, opt_str(setting), IDLE_TIMEOUT_SECS as nat),
{
    match model_timeout {
        Some(secs) if secs > 0 => secs,
        _ => env_timeout_secs(setting, IDLE_TIMEOUT_SECS),
    }
}

// ---------------------------------------------------------------------------
// Waiting for an answer

/// What the wait for an event ends with.
pub enum Arrival {
    Event(StreamEvent),
    /// The time is up.
    TimedOut,
    /// No event will come any more.
    Closed,
}

/// The end of an answer that an event is, if it is one.
pub open spec fn ended_by(event: EventView) -> Option<Result<CompletionView, AiErrorView>> {
    match event {
        EventView::Done { content, tool_calls, usage, stop_reason } => Some(
            Ok(completion_of(content, tool_calls, stop_reason, usage)),
        ),
        EventView::HttpError { status, message } => Some(
            Err(AiErrorView::Api { status, message }),
        ),
        EventView::Error(message) => Some(Err(AiErrorView::Stream(message))),
        EventView::Delta { .. } => None,
    }
}

/// The end of an answer, if there is one, as a value.
pub open spec fn end_of(end: Option<Result<Completion, AiError>>) -> Option<
    Result<CompletionView, AiErrorView>,
> {
    match end {
        Some(r) => Some(call_outcome(r)),
        None => None,
    }
}

/// The end of an answer that an event is, if it is one.
pub fn completion_from_event(event: StreamEvent) -> (end: Option<Result<Completion, AiError>>)
    ensures
        end_of(end) == ended_by(event@),
{
    match event {
        StreamEvent::Done { content, tool_calls, usage, stop_reason } => Some(
            Ok(Completion::new(content, tool_calls, stop_reason, usage)),
        ),
        StreamEvent::HttpError { status, message } => Some(Err(AiError::Api { status, message })),
        StreamEvent::Error(message) => Some(Err(AiError::Stream(message))),
        StreamEvent::Delta { .. } => None,
    }
}

/// The wait for an answer: until its first event for one span, and then between
/// any two events for another.
#[derive(Clone, Copy, Debug, PartialEq, Eq, Structural)]
pub struct AnswerWait {
    pub first_secs: u64,
    pub idle_secs: u64,
    /// Whether an event has come.
    pub started: bool,
}

/// The message where no event came in time.
pub open spec fn timeout_text(wait: AnswerWait) -> Seq<char> {
    if wait.started {
        "流式响应空闲超时（"@ + decimal_text(wait.idle_secs as nat) + "s 无新数据）"@
    } else {
        "等待首个事件超时（"@ + decimal_text(wait.first_secs as nat) + "s 无响应）"@
    }
}

/// The message where the events end before the answer does.
pub open spec fn closed_text(wait: AnswerWait) -> Seq<char> {
    if wait.started {
        "stream 在 Done 之前关闭"@
    } else {
        "stream 在发送任何事件前关闭"@
    }
}

/// How the wait ends with what has come, if it does.
pub open spec fn wait_end(wait: AnswerWait, arrival: Arrival) -> Option<
    Result<CompletionView, AiErrorView>,
> {
    match arrival {
        Arrival::Event(event) => ended_by(event@),
        Arrival::TimedOut => Some(Err(AiErrorView::Stream(timeout_text(wait)))),
        Arrival::Closed => Some(Err(AiErrorView::Stream(closed_text(wait)))),
    }
}

impl AnswerWait {
    /// The wait for an answer of a model.
    pub fn new(
        model_timeout: Option<u64>,
        first_setting: Option<&str>,
        idle_setting: Option<&str>,
    ) -> (wait: AnswerWait)
        ensures
            wait.first_secs == timeout(
                model_timeout,
                opt_str(first_setting),
                FIRST_EVENT_TIMEOUT_SECS as nat,
            ),
            wait.idle_secs == timeout(
                model_timeout,
                opt_str(idle_setting),
                IDLE_TIMEOUT_SECS as nat,
            ),
            !wait.started,
    {
        AnswerWait {
            first_secs: first_event_timeout_secs(model_timeout, first_setting),
            idle_secs: idle_timeout_secs(model_timeout, idle_setting),
            started: false,
        }
    }

    /// The seconds within which the next event has to come, if there is a limit.
    pub fn limit(&self) -> (secs: Option<u64>)
        ensures
            secs == ({
                let span = if self.started {
                    self.idle_secs
                } else {
                    self.first_secs
                };
                if span > 0 {
                    Some(span)
                } else {
                    None
                }
            }),
    {
        let span: u64 = if self.started {
            self.idle_secs
        } else {
            self.first_secs
        };
        if span > 0 {
            Some(span)
        } else {
            None
        }
    }

    /// Takes what has come, and says how the wait ends with it, if it does.
    pub fn on_arrival(&mut self, arrival: Arrival) -> (end: Option<Result<Completion, AiError>>)
        ensures
            end_of(end) == wait_end(*old(self), arrival),
            *final(self) == (AnswerWait { started: true, ..*old(self) }),
    {
        let started = self.started;
        self.started = true;
        match arrival {
            Arrival::Event(event) => completion_from_event(event),
            Arrival::TimedOut => {
                let text = if started {
                    let mut text = concat(
                        "流式响应空闲超时（",
                        decimal(self.idle_secs).as_str(),
                    );
                    text.append("s 无新数据）");
                    text
                } else {
                    let mut text = concat(
                        "等待首个事件超时（",
                        decimal(self.first_secs).as_str(),
                    );
                    text.append("s 无响应）");
                    text
                };
                Some(Err(AiError::Stream(text)))
            },
            Arrival::Closed => {
                let text = if started {
                    "stream 在 Done 之前关闭".to_owned()
                } else {
                    "stream 在发送任何事件前关闭".to_owned()
                };
                Some(Err(AiError::Stream(text)))
            },
        }
    }
}

// ---------------------------------------------------------------------------
// Requests

/// The limit on output tokens that is sent: the one asked for or else that of
/// the model, as it is. No limit is sent where none is set, or the model wants
/// none.
pub open spec fn output_limit(explicit: Option<u32>, model: Model) -> Option<u32> {
    if model.omit_max_tokens {
        None
    } else {
        let n = match explicit {
            Some(n) => n,
            None => model.max_tokens,
        };
        if n > 0 {
            Some(n)
        } else {
            None
        }
    }
}

/// The pieces that are sent: all but texts without a character.
pub open spec fn spoken(parts: Seq<PartView>) -> Seq<PartView>
    decreases parts.len(),
{
    if parts.len() == 0 {
        Seq::empty()
    } else if parts.last() == PartView::Text(Seq::empty()) {
        spoken(parts.drop_last())
    } else {
        spoken(parts.drop_last()).push(parts.last())
    }
}

/// Pieces in the OpenAI shape.
pub open spec fn openai_parts(parts: Seq<PartView>) -> Seq<OpenAiPartView> {
    parts.map_values(|p: PartView| openai_part(p))
}

/// Pieces in the Anthropic shape.
pub open spec fn anthropic_blocks(parts: Seq<PartView>) -> Seq<BlockView> {
    parts.map_values(|p: PartView| anthropic_block(p))
}

/// The text of a tool's outcome.
pub open spec fn outcome_text(message: MessageView) -> Seq<char> {
    joined(texts_among(message.content), "\n"@)
}

/// The content of a message in the OpenAI shape. A message with nothing to send
/// gets a space.
pub open spec fn openai_content(message: MessageView) -> OpenAiContentView {
    if message.role == Role::Tool {
        OpenAiContentView::ToolString(outcome_text(message))
    } else if spoken(message.content).len() == 0 && message.tool_calls is None {
        OpenAiContentView::Parts(
            seq![OpenAiPartView::Text { text: " "@, cache_control: None }],
        )
    } else {
        OpenAiContentView::Parts(openai_parts(spoken(message.content)))
    }
}

/// A tool call in the OpenAI shape, with the model's own text for the arguments
/// where there is one.
pub open spec fn openai_call(call: ToolCallView) -> OpenAiToolCallView {
    OpenAiToolCallView {
        id: call.id,
        type_: Some("function"@),
        name: call.name,
        arguments: match call.arguments_raw {
            Some(raw) => raw,
            None => printed(call.arguments),
        },
    }
}

/// Tool calls in the OpenAI shape.
pub open spec fn openai_calls(calls: Seq<ToolCallView>) -> Seq<OpenAiToolCallView> {
    calls.map_values(|c: ToolCallView| openai_call(c))
}

/// A message in the OpenAI shape.
pub open spec fn openai_message(message: MessageView) -> OpenAiMessageView {
    OpenAiMessageView {
        role: message.role,
        content: openai_content(message),
        tool_call_id: message.tool_call_id,
        tool_calls: match message.tool_calls {
            Some(calls) => Some(openai_calls(calls)),
            None => None,
        },
    }
}

/// Messages in the OpenAI shape.
pub open spec fn openai_messages(messages: Seq<MessageView>) -> Seq<OpenAiMessageView> {
    messages.map_values(|m: MessageView| openai_message(m))
}

/// A tool in the OpenAI shape.
pub open spec fn openai_tool(tool: ToolView) -> OpenAiToolView {
    OpenAiToolView {
        name: tool.name,
        description: tool.description,
        parameters: tool.parameters,
        strict: tool.strict,
    }
}

/// Tools in the OpenAI shape.
pub open spec fn openai_tools(tools: Seq<ToolView>) -> Seq<OpenAiToolView> {
    tools.map_values(|t: ToolView| openai_tool(t))
}

/// Whether the choice of tools goes without saying.
pub open spec fn choice_is_plain(params: ParamsView) -> bool {
    params.tools.len() == 0 && params.tool_choice == ToolChoiceView::Auto
}

/// The request to the OpenAI API, before marks for the prompt cache.
pub open spec fn openai_request_unmarked(
    model: Model,
    messages: Seq<MessageView>,
    params: ParamsView,
    stream: bool,
    include_usage: bool,
) -> OpenAiRequestView {
    let limit = output_limit(params.max_tokens, model);
    OpenAiRequestView {
        model: model.id@,
        messages: openai_messages(messages),
        temperature: params.temperature,
        top_p: params.top_p,
        top_k: params.top_k,
        min_p: params.min_p,
        presence_penalty: params.presence_penalty,
        frequency_penalty: params.frequency_penalty,
        repetition_penalty: params.repetition_penalty,
        max_tokens: if model.max_tokens_field == MaxTokensField::MaxTokens {
            limit
        } else {
            None
        },
        max_completion_tokens: if model.max_tokens_field == MaxTokensField::MaxCompletionTokens {
            limit
        } else {
            None
        },
        stop: params.stop_sequences,
        seed: params.seed,
        tools: openai_tools(params.tools),
        tool_choice: if choice_is_plain(params) {
            None
        } else {
            Some(openai_choice(params.tool_choice))
        },
        parallel_tool_calls: if params.tools.len() == 0 {
            None
        } else {
            params.parallel_tool_calls
        },
        prompt_cache_key: params.prompt_cache_key,
        stream,
        include_usage: stream && include_usage,
    }
}

/// The request to the OpenAI API, with marks for the prompt cache if the model
/// takes them.
pub open spec fn openai_request(
    model: Model,
    messages: Seq<MessageView>,
    params: ParamsView,
    stream: bool,
    include_usage: bool,
) -> OpenAiRequestView {
    let req = openai_request_unmarked(model, messages, params, stream, include_usage);
    if model.prompt_cache {
        OpenAiRequestView { messages: marked_messages(req.messages), ..req }
    } else {
        req
    }
}

/// The texts that a system message puts into the system prompt.
pub open spec fn system_texts(parts: Seq<PartView>) -> Seq<SystemBlockView>
    decreases parts.len(),
{
    if parts.len() == 0 {
        Seq::empty()
    } else {
        match parts.last() {
            PartView::Text(text) if text.len() > 0 => system_texts(parts.drop_last()).push(
                SystemBlockView { text, cache_control: None },
            ),
            _ => system_texts(parts.drop_last()),
        }
    }
}

/// The system prompt: what all system messages say, in their order.
pub open spec fn system_prompt(messages: Seq<MessageView>) -> Seq<SystemBlockView>
    decreases messages.len(),
{
    if messages.len() == 0 {
        Seq::empty()
    } else if messages.last().role == Role::System {
        system_prompt(messages.drop_last()) + system_texts(messages.last().content)
    } else {
        system_prompt(messages.drop_last())
    }
}

/// The content of a message in the Anthropic shape. A message with nothing to
/// send gets a space.
pub open spec fn anthropic_content(message: MessageView) -> Seq<BlockView> {
    if message.role == Role::Tool {
        seq![
            BlockView::ToolResult {
                tool_use_id: match message.tool_call_id {
                    Some(id) => id,
                    None => Seq::empty(),
                },
                content: outcome_text(message),
                is_error: None,
                cache_control: None,
            },
        ]
    } else if spoken(message.content).len() == 0 {
        seq![BlockView::Text { text: " "@, cache_control: None }]
    } else {
        anthropic_blocks(spoken(message.content))
    }
}

/// The messages of the Anthropic shape: all but the system messages.
pub open spec fn anthropic_messages(messages: Seq<MessageView>) -> Seq<AnthropicMessageView>
    decreases messages.len(),
{
    if messages.len() == 0 {
        Seq::empty()
    } else if messages.last().role == Role::System {
        anthropic_messages(messages.drop_last())
    } else {
        anthropic_messages(messages.drop_last()).push(
            AnthropicMessageView {
                from_model: messages.last().role == Role::Assistant,
                content: anthropic_content(messages.last()),
            },
        )
    }
}

/// A tool in the Anthropic shape.
pub open spec fn anthropic_tool(tool: ToolView) -> AnthropicToolView {
    AnthropicToolView {
        name: tool.name,
        description: tool.description,
        input_schema: tool.parameters,
        cache_control: None,
    }
}

/// Tools in the Anthropic shape.
pub open spec fn anthropic_tools(tools: Seq<ToolView>) -> Seq<AnthropicToolView> {
    tools.map_values(|t: ToolView| anthropic_tool(t))
}

/// The request to the Anthropic API, before marks for the prompt cache.
pub open spec fn anthropic_request_unmarked(
    model: Model,
    messages: Seq<MessageView>,
    params: ParamsView,
) -> AnthropicRequestView {
    AnthropicRequestView {
        model: model.id@,
        system: system_prompt(messages),
        messages: anthropic_messages(messages),
        max_tokens: match output_limit(params.max_tokens, model) {
            Some(n) => n,
            None => ANTHROPIC_UNCONFIGURED_MAX_TOKENS,
        },
        temperature: params.temperature,
        top_p: params.top_p,
        top_k: params.top_k,
        stop_sequences: params.stop_sequences,
        tools: anthropic_tools(params.tools),
        tool_choice: if choice_is_plain(params) {
            None
        } else {
            anthropic_choice(params.tool_choice)
        },
        thinking_tokens: match params.thinking_budget {
            Some(budget) => Some(budget_tokens(budget)),
            None => None,
        },
    }
}

/// The request to the Anthropic API.
pub open spec fn anthropic_request(
    model: Model,
    messages: Seq<MessageView>,
    params: ParamsView,
) -> AnthropicRequestView {
    marked_request(anthropic_request_unmarked(model, messages, params))
}

/// The message where a model has no key.
pub open spec fn no_key_text(id: Seq<char>) -> Seq<char> {
    "model '"@ + id
        + "' has no api_key configured; set it in your global config (~/.latte/models.yaml), project config (config/models.toml), --api-key flag, or the corresponding ${ENV_VAR} in api_key"@
}

fn spoken_parts(parts: &Vec<ContentPart>) -> (out: Vec<OpenAiContentPart>)
    ensures
        openai_parts_of(out@) == openai_parts(spoken(parts_of(parts@))),
{
    let ghost all = parts_of(parts@);
    let mut out: Vec<OpenAiContentPart> = Vec::new();
    let mut i: usize = 0;
    assert(all.take(0) =~= Seq::empty());
    assert(openai_parts_of(out@) =~= openai_parts(spoken(all.take(0))));
    while i < parts.len()
        invariant
            i <= parts@.len(),
            all == parts_of(parts@),
            openai_parts_of(out@) == openai_parts(spoken(all.take(i as int))),
        decreases parts@.len() - i,
    {
        let ghost before = out@;
        assert(all.take(i + 1).drop_last() =~= all.take(i as int));
        assert(all.take(i + 1).last() == parts@[i as int]@);
        if !is_blank(&parts[i]) {
            out.push(to_openai_content_part(&parts[i]));
            assert(openai_parts_of(out@) =~= openai_parts_of(before).push(
                openai_part(parts@[i as int]@),
            ));
            assert(openai_parts(spoken(all.take(i + 1))) =~= openai_parts(
                spoken(all.take(i as int)),
            ).push(openai_part(parts@[i as int]@)));
        }
        i = i + 1;
    }
    assert(all.take(all.len() as int) =~= all);
    out
}

fn is_blank(part: &ContentPart) -> (b: bool)
    ensures
        b == (part@ == PartView::Text(Seq::empty())),
{
    match part {
        ContentPart::Text { text } => {
            let b = text.as_str().unicode_len() == 0;
            assert(b ==> text@ =~= Seq::empty());
            b
        },
        ContentPart::Image { .. } => false,
    }
}

fn spoken_blocks(parts: &Vec<ContentPart>) -> (out: Vec<AnthropicContentBlock>)
    ensures
        blocks_of(out@) == anthropic_blocks(spoken(parts_of(parts@))),
{
    let ghost all = parts_of(parts@);
    let mut out: Vec<AnthropicContentBlock> = Vec::new();
    let mut i: usize = 0;
    assert(all.take(0) =~= Seq::empty());
    assert(blocks_of(out@) =~= anthropic_blocks(spoken(all.take(0))));
    while i < parts.len()
        invariant
            i <= parts@.len(),
            all == parts_of(parts@),
            blocks_of(out@) == anthropic_blocks(spoken(all.take(i as int))),
        decreases parts@.len() - i,
    {
        let ghost before = out@;
        assert(all.take(i + 1).drop_last() =~= all.take(i as int));
        assert(all.take(i + 1).last() == parts@[i as int]@);
        if !is_blank(&parts[i]) {
            out.push(to_anthropic_content_block(&parts[i]));
            assert(blocks_of(out@) =~= blocks_of(before).push(
                anthropic_block(parts@[i as int]@),
            ));
            assert(anthropic_blocks(spoken(all.take(i + 1))) =~= anthropic_blocks(
                spoken(all.take(i as int)),
            ).push(anthropic_block(parts@[i as int]@)));
        }
        i = i + 1;
    }
    assert(all.take(all.len() as int) =~= all);
    out
}

fn outcome(message: &Message) -> (text: String)
    ensures
        text@ == outcome_text(message@),
{
    join(text_parts(&message.content).as_slice(), "\n")
}

fn to_openai_content(message: &Message) -> (content: OpenAiMessageContent)
    ensures
        content@ == openai_content(message@),
{
    if message.role == Role::Tool {
        return OpenAiMessageContent::ToolString(outcome(message));
    }
    let parts = spoken_parts(&message.content);
    assert(openai_parts_of(parts@).len() == parts@.len());
    assert(openai_parts(spoken(message@.content)).len() == spoken(message@.content).len());
    if parts.len() == 0 && message.tool_calls.is_none() {
        let space = OpenAiContentPart::Text { text: " ".to_owned(), cache_control: None };
        let parts: Vec<OpenAiContentPart> = vec![space];
        assert(openai_parts_of(parts@) =~= seq![
            OpenAiPartView::Text { text: " "@, cache_control: None },
        ]);
        OpenAiMessageContent::Parts(parts)
    } else {
        OpenAiMessageContent::Parts(parts)
    }
}

fn to_openai_call(call: &ToolCall) -> (out: OpenAiToolCall)
    ensures
        out@ == openai_call(call@),
{
    OpenAiToolCall {
        id: call.id.clone(),
        type_: Some("function".to_owned()),
        function: OpenAiFunctionCall {
            name: call.name.clone(),
            arguments: match &call.arguments_raw {
                Some(raw) => raw.clone(),
                None => print(&call.arguments),
            },
        },
    }
}

fn to_openai_calls(calls: &Vec<ToolCall>) -> (out: Vec<OpenAiToolCall>)
    ensures
        openai_calls_of(out@) == openai_calls(calls_of(calls@)),
{
    let mut out: Vec<OpenAiToolCall> = Vec::new();
    let mut i: usize = 0;
    while i < calls.len()
        invariant
            i <= calls@.len(),
            out@.len() == i,
            forall|j: int| 0 <= j < i ==> (#[trigger] out@[j])@ == openai_call(calls@[j]@),
        decreases calls@.len() - i,
    {
        out.push(to_openai_call(&calls[i]));
        i = i + 1;
    }
    assert(openai_calls_of(out@) =~= openai_calls(calls_of(calls@)));
    out
}

fn to_openai_messages(messages: &[Message]) -> (out: Vec<OpenAiMessage>)
    ensures
        openai_messages_of(out@) == openai_messages(messages_of(messages@)),
{
    let mut out: Vec<OpenAiMessage> = Vec::new();
    let mut i: usize = 0;
    while i < messages.len()
        invariant
            i <= messages@.len(),
            out@.len() == i,
            forall|j: int| 0 <= j < i ==> (#[trigger] out@[j])@ == openai_message(messages@[j]@),
        decreases messages@.len() - i,
    {
        let message = &messages[i];
        out.push(
            OpenAiMessage {
                role: message.role,
                content: to_openai_content(message),
                tool_call_id: message.tool_call_id.clone(),
                tool_calls: match &message.tool_calls {
                    Some(calls) => Some(to_openai_calls(calls)),
                    None => None,
                },
            },
        );
        i = i + 1;
    }
    assert(openai_messages_of(out@) =~= openai_messages(messages_of(messages@)));
    out
}

fn to_openai_tools(tools: &Vec<Tool>) -> (out: Vec<OpenAiTool>)
    ensures
        openai_tools_of(out@) == openai_tools(crate::models::tools_of(tools@)),
{
    let mut out: Vec<OpenAiTool> = Vec::new();
    let mut i: usize = 0;
    while i < tools.len()
        invariant
            i <= tools@.len(),
            out@.len() == i,
            forall|j: int| 0 <= j < i ==> (#[trigger] out@[j])@ == openai_tool(tools@[j]@),
        decreases tools@.len() - i,
    {
        let tool = &tools[i];
        out.push(
            OpenAiTool {
                name: tool.name.clone(),
                description: tool.description.clone(),
                parameters: tool.parameters.clone(),
                strict: tool.strict,
            },
        );
        i = i + 1;
    }
    assert(openai_tools_of(out@) =~= openai_tools(crate::models::tools_of(tools@)));
    out
}

fn to_anthropic_tools(tools: &Vec<Tool>) -> (out: Vec<AnthropicTool>)
    ensures
        anthropic_tools_of(out@) == anthropic_tools(crate::models::tools_of(tools@)),
{
    let mut out: Vec<AnthropicTool> = Vec::new();
    let mut i: usize = 0;
    while i < tools.len()
        invariant
            i <= tools@.len(),
            out@.len() == i,
            forall|j: int| 0 <= j < i ==> (#[trigger] out@[j])@ == anthropic_tool(tools@[j]@),
        decreases tools@.len() - i,
    {
        let tool = &tools[i];
        out.push(
            AnthropicTool {
                name: tool.name.clone(),
                description: tool.description.clone(),
                input_schema: tool.parameters.clone(),
                cache_control: None,
            },
        );
        i = i + 1;
    }
    assert(anthropic_tools_of(out@) =~= anthropic_tools(crate::models::tools_of(tools@)));
    out
}

fn push_system_texts(out: &mut Vec<AnthropicSystemBlock>, parts: &Vec<ContentPart>)
    ensures
        system_blocks_of(final(out)@) == system_blocks_of(old(out)@) + system_texts(
            parts_of(parts@),
        ),
{
    let ghost all = parts_of(parts@);
    let ghost start = system_blocks_of(out@);
    let mut i: usize = 0;
    assert(all.take(0) =~= Seq::empty());
    assert(start + system_texts(all.take(0)) =~= start);
    while i < parts.len()
        invariant
            i <= parts@.len(),
            all == parts_of(parts@),
            start == system_blocks_of(old(out)@),
            system_blocks_of(out@) == start + system_texts(all.take(i as int)),
        decreases parts@.len() - i,
    {
        let ghost before = system_blocks_of(out@);
        assert(all.take(i + 1).drop_last() =~= all.take(i as int));
        assert(all.take(i + 1).last() == parts@[i as int]@);
        if let ContentPart::Text { text } = &parts[i] {
            if text.as_str().unicode_len() > 0 {
                out.push(AnthropicSystemBlock { text: text.clone(), cache_control: None });
                let ghost block = SystemBlockView { text: text@, cache_control: None };
                assert(system_blocks_of(out@) =~= before.push(block));
                assert(before.push(block) =~= start + system_texts(all.take(i as int)).push(
                    block,
                ));
            }
        }
        i = i + 1;
    }
    assert(all.take(all.len() as int) =~= all);
}

fn to_system_prompt(messages: &[Message]) -> (out: Vec<AnthropicSystemBlock>)
    ensures
        system_blocks_of(out@) == system_prompt(messages_of(messages@)),
{
    let ghost all = messages_of(messages@);
    let mut out: Vec<AnthropicSystemBlock> = Vec::new();
    let mut i: usize = 0;
    assert(all.take(0) =~= Seq::empty());
    assert(system_blocks_of(out@) =~= Seq::empty());
    while i < messages.len()
        invariant
            i <= messages@.len(),
            all == messages_of(messages@),
            system_blocks_of(out@) == system_prompt(all.take(i as int)),
        decreases messages@.len() - i,
    {
        assert(all.take(i + 1).drop_last() =~= all.take(i as int));
        assert(all.take(i + 1).last() == messages@[i as int]@);
        if messages[i].role == Role::System {
            push_system_texts(&mut out, &messages[i].content);
        }
        i = i + 1;
    }
    assert(all.take(all.len() as int) =~= all);
    out
}

fn to_anthropic_content(message: &Message) -> (blocks: Vec<AnthropicContentBlock>)
    ensures
        blocks_of(blocks@) == anthropic_content(message@),
{
    if message.role == Role::Tool {
        let tool_use_id = match &message.tool_call_id {
            Some(id) => id.clone(),
            None => String::new(),
        };
        let block = AnthropicContentBlock::ToolResult {
            tool_use_id,
            content: outcome(message),
            is_error: None,
            cache_control: None,
        };
        let blocks: Vec<AnthropicContentBlock> = vec![block];
        assert(blocks_of(blocks@) =~= anthropic_content(message@));
        return blocks;
    }
    let blocks = spoken_blocks(&message.content);
    assert(blocks_of(blocks@).len() == blocks@.len());
    assert(anthropic_blocks(spoken(message@.content)).len() == spoken(message@.content).len());
    if blocks.len() == 0 {
        let space = AnthropicContentBlock::Text { text: " ".to_owned(), cache_control: None };
        let blocks: Vec<AnthropicContentBlock> = vec![space];
        assert(blocks_of(blocks@) =~= seq![BlockView::Text { text: " "@, cache_control: None }]);
        blocks
    } else {
        blocks
    }
}

fn to_anthropic_messages(messages: &[Message]) -> (out: Vec<AnthropicMessage>)
    ensures
        anthropic_messages_of(out@) == anthropic_messages(messages_of(messages@)),
{
    let ghost all = messages_of(messages@);
    let mut out: Vec<AnthropicMessage> = Vec::new();
    let mut i: usize = 0;
    assert(all.take(0) =~= Seq::empty());
    assert(anthropic_messages_of(out@) =~= Seq::empty());
    while i < messages.len()
        invariant
            i <= messages@.len(),
            all == messages_of(messages@),
            anthropic_messages_of(out@) == anthropic_messages(all.take(i as int)),
        decreases messages@.len() - i,
    {
        let ghost before = anthropic_messages_of(out@);
        assert(all.take(i + 1).drop_last() =~= all.take(i as int));
        assert(all.take(i + 1).last() == messages@[i as int]@);
        if messages[i].role != Role::System {
            let message = AnthropicMessage {
                from_model: messages[i].role == Role::Assistant,
                content: to_anthropic_content(&messages[i]),
            };
            let ghost view = message@;
            out.push(message);
            assert(anthropic_messages_of(out@) =~= before.push(view));
        }
        i = i + 1;
    }
    assert(all.take(all.len() as int) =~= all);
    out
}

/// A client of one model.
#[derive(Clone, Debug)]
pub struct AiClient {
    pub model: Model,
}

impl AiClient {
    /// The client of a model.
    pub fn new(model: Model) -> (client: AiClient)
        ensures
            client.model == model,
    {
        AiClient { model }
    }

    /// The model.
    pub fn model(&self) -> (model: &Model)
        ensures
            *model == self.model,
    {
        &self.model
    }

    /// The limit on output tokens that is sent.
    pub fn effective_max_tokens(explicit: Option<u32>, model: &Model) -> (n: Option<u32>)
        ensures
            n == output_limit(explicit, *model),
    {
        if model.omit_max_tokens {
            return None;
        }
        let n: u32 = match explicit {
            Some(n) => n,
            None => model.max_tokens,
        };
        if n > 0 {
            Some(n)
        } else {
            None
        }
    }

    /// The limit on output tokens that is sent where none is asked for.
    pub fn resolved_max_tokens(&self) -> (n: Option<u32>)
        ensures
            n == output_limit(None, self.model),
    {
        AiClient::effective_max_tokens(None, &self.model)
    }

    /// Refuses where the model has no key.
    pub fn check_api_key(&self) -> (r: Result<(), AiError>)
        ensures
            match r {
                Ok(_) => trimmed(self.model.api_key@).len() > 0,
                Err(e) => trimmed(self.model.api_key@).len() == 0 && e@ == AiErrorView::Config(
                    no_key_text(self.model.id@),
                ),
            },
    {
        if trim(self.model.api_key.as_str()).unicode_len() == 0 {
            let mut text = concat("model '", self.model.id.as_str());
            text.append(
                "' has no api_key configured; set it in your global config (~/.latte/models.yaml), project config (config/models.toml), --api-key flag, or the corresponding ${ENV_VAR} in api_key",
            );
            return Err(AiError::Config(text));
        }
        Ok(())
    }

    /// Where requests go.
    pub fn url(&self) -> (url: String)
        ensures
            url@ == trimmed_end(self.model.base_url@, is_slash()) + (match self.model.api {
                ApiType::OpenAiCompletions => "/chat/completions"@,
                ApiType::AnthropicMessages => "/v1/messages"@,
            }),
    {
        let base = trim_end_slashes(self.model.base_url.as_str());
        match self.model.api {
            ApiType::OpenAiCompletions => concat(base, "/chat/completions"),
            ApiType::AnthropicMessages => concat(base, "/v1/messages"),
        }
    }

    /// The headers that show the key.
    pub fn headers(&self) -> (headers: Vec<(String, String)>)
        ensures
            headers_of(headers@) == auth_headers(self.model.api, self.model.api_key@),
    {
        key_headers(self.model.api, self.model.api_key.as_str())
    }

    /// The request to the OpenAI API.
    pub fn build_openai_request(
        &self,
        messages: &[Message],
        params: &GenerateParams,
        stream: bool,
        include_usage: bool,
    ) -> (req: OpenAiChatRequest)
        ensures
            req@ == openai_request(
                self.model,
                messages_of(messages@),
                params@,
                stream,
                include_usage,
            ),
    {
        let cap = AiClient::effective_max_tokens(params.max_tokens, &self.model);
        let tools = to_openai_tools(&params.tools);
        assert(crate::models::tools_of(params.tools@).len() == params.tools@.len());
        let plain = match params.tool_choice {
            ToolChoice::Auto => params.tools.len() == 0,
            _ => false,
        };
        let mut req = OpenAiChatRequest {
            model: self.model.id.clone(),
            messages: to_openai_messages(messages),
            temperature: params.temperature,
            top_p: params.top_p,
            top_k: params.top_k,
            min_p: params.min_p,
            presence_penalty: params.presence_penalty,
            frequency_penalty: params.frequency_penalty,
            repetition_penalty: params.repetition_penalty,
            max_tokens: if self.model.max_tokens_field == MaxTokensField::MaxTokens {
                cap
            } else {
                None
            },
            max_completion_tokens: if self.model.max_tokens_field
                == MaxTokensField::MaxCompletionTokens {
                cap
            } else {
                None
            },
            stop: copy_texts(&params.stop_sequences),
            seed: params.seed,
            tools,
            tool_choice: if plain {
                None
            } else {
                Some(OpenAiToolChoice::from(&params.tool_choice))
            },
            parallel_tool_calls: if params.tools.len() == 0 {
                None
            } else {
                params.parallel_tool_calls
            },
            prompt_cache_key: params.prompt_cache_key.clone(),
            stream,
            include_usage: stream && include_usage,
        };
        assert(req@ == openai_request_unmarked(
            self.model,
            messages_of(messages@),
            params@,
            stream,
            include_usage,
        ));
        if self.model.prompt_cache {
            apply_openai_cache_breakpoints(&mut req);
        }
        req
    }

    /// The request to the Anthropic API.
    pub fn build_anthropic_request(&self, messages: &[Message], params: &GenerateParams) -> (req:
        AnthropicRequest)
        ensures
            req@ == anthropic_request(self.model, messages_of(messages@), params@),
    {
        assert(crate::models::tools_of(params.tools@).len() == params.tools@.len());
        let plain = match params.tool_choice {
            ToolChoice::Auto => params.tools.len() == 0,
            _ => false,
        };
        let max_tokens: u32 = match AiClient::effective_max_tokens(
            params.max_tokens,
            &self.model,
        ) {
            Some(n) => n,
            None => ANTHROPIC_UNCONFIGURED_MAX_TOKENS,
        };
        let mut req = AnthropicRequest {
            model: self.model.id.clone(),
            system: to_system_prompt(messages),
            messages: to_anthropic_messages(messages),
            max_tokens,
            temperature: params.temperature,
            top_p: params.top_p,
            top_k: params.top_k,
            stop_sequences: copy_texts(&params.stop_sequences),
            tools: to_anthropic_tools(&params.tools),
            tool_choice: if plain {
                None
            } else {
                AnthropicToolChoice::from(&params.tool_choice)
            },
            thinking_tokens: match params.thinking_budget {
                Some(budget) => Some(budget.token_budget()),
                None => None,
            },
        };
        assert(req@ == anthropic_request_unmarked(self.model, messages_of(messages@), params@));
        apply_anthropic_cache_breakpoints(&mut req);
        req
    }
}

} // verus!
