//! Requests and replies in the shapes of the OpenAI and Anthropic APIs.
use crate::decimal::Decimal;
use crate::json::{
    boolean, count_tree, field_trees, list, no_fields, null, number, object, object_of,
    opt_count_tree, opt_decimal_tree, opt_field, opt_text_tree, put, put_count, put_decimal,
    put_opt, put_text, set_field, string, tree_of, trees_of, JsonTree,
};
use crate::models::{opt_text, ContentPart, PartView, Role, ToolChoice, ToolChoiceView};
use crate::reply::block_part;
use crate::text::{concat, texts};
use vstd::prelude::*;

verus! {

/// What the base64 crate's standard engine writes for bytes.
pub uninterp spec fn base64_text(bytes: Seq<u8>) -> Seq<char>;

/// What the base64 crate's standard engine reads from a text, where that is
/// base64.
pub uninterp spec fn base64_bytes(text: Seq<char>) -> Option<Seq<u8>>;

/// `Engine::encode` of `base64::engine::general_purpose::STANDARD`: the text is
/// a function of the bytes, and it reads back as these bytes.
#[verifier::external_body]
pub(crate) fn base64_encode(data: &Vec<u8>) -> (text: String)
    ensures
        text@ == base64_text(data@),
        base64_bytes(text@) == Some(data@),
{
    base64::Engine::encode(&base64::engine::general_purpose::STANDARD, data)
}

/// `Engine::decode` of `base64::engine::general_purpose::STANDARD`: what is read
/// is a function of the text.
#[verifier::external_body]
pub(crate) fn base64_decode(text: &str) -> (data: Option<Vec<u8>>)
    ensures
        match data {
            Some(data) => base64_bytes(text@) == Some(data@),
            None => base64_bytes(text@) is None,
        },
{
    base64::Engine::decode(&base64::engine::general_purpose::STANDARD, text).ok()
}

/// A mark for the prompt cache: what comes up to here is worth keeping.
#[derive(Clone, Copy, Debug, PartialEq, Eq, Structural)]
pub enum AnthropicCacheControl {
    Ephemeral,
}

impl AnthropicCacheControl {
    pub fn ephemeral() -> (mark: AnthropicCacheControl)
        ensures
            mark == AnthropicCacheControl::Ephemeral,
    {
        AnthropicCacheControl::Ephemeral
    }
}

/// A mark as a tree.
pub open spec fn cache_tree(mark: Option<AnthropicCacheControl>) -> Option<JsonTree> {
    match mark {
        Some(_) => Some(
            JsonTree::Object(object_of(seq![("type"@, JsonTree::Text("ephemeral"@))])),
        ),
        None => None,
    }
}

fn put_cache(fields: &mut Vec<(String, serde_json::Value)>, mark: Option<AnthropicCacheControl>)
    ensures
        field_trees(final(fields)@) == field_trees(old(fields)@)
            + opt_field("cache_control"@, cache_tree(mark)),
{
    put_opt(
        fields,
        "cache_control",
        match mark {
            Some(_) => {
                let mut inner = no_fields();
                put(&mut inner, "type", string("ephemeral".to_owned()));
                assert(field_trees(inner@) =~= seq![
                    ("type"@, JsonTree::Text("ephemeral"@)),
                ]);
                Some(object(inner))
            },
            None => None,
        },
    );
}

/// A text as a tree.
pub open spec fn text_tree(text: Seq<char>) -> JsonTree {
    JsonTree::Text(text)
}

// ---------------------------------------------------------------------------
// OpenAI requests

/// A piece of a message.
#[derive(Debug)]
pub enum OpenAiContentPart {
    Text { text: String, cache_control: Option<AnthropicCacheControl> },
    /// A picture, as a `data:` URL.
    ImageUrl { url: String },
}

/// A piece of a message as a value.
pub enum OpenAiPartView {
    Text { text: Seq<char>, cache_control: Option<AnthropicCacheControl> },
    ImageUrl { url: Seq<char> },
}

impl View for OpenAiContentPart {
    type V = OpenAiPartView;

    open spec fn view(&self) -> OpenAiPartView {
        match self {
            OpenAiContentPart::Text { text, cache_control } => OpenAiPartView::Text {
                text: text@,
                cache_control: *cache_control,
            },
            OpenAiContentPart::ImageUrl { url } => OpenAiPartView::ImageUrl { url: url@ },
        }
    }
}

/// Pieces as values.
pub open spec fn openai_parts_of(parts: Seq<OpenAiContentPart>) -> Seq<OpenAiPartView> {
    parts.map_values(|p: OpenAiContentPart| p@)
}

/// A picture as a `data:` URL.
pub open spec fn data_url(media_type: Seq<char>, data: Seq<u8>) -> Seq<char> {
    "data:"@ + media_type + ";base64,"@ + base64_text(data)
}

/// A piece in the OpenAI shape.
pub open spec fn openai_part(part: PartView) -> OpenAiPartView {
    match part {
        PartView::Text(text) => OpenAiPartView::Text { text, cache_control: None },
        PartView::Image { media_type, data } => OpenAiPartView::ImageUrl {
            url: data_url(media_type, data),
        },
    }
}

/// A piece in the OpenAI shape.
pub fn to_openai_content_part(p: &ContentPart) -> (part: OpenAiContentPart)
    ensures
        part@ == openai_part(p@),
{
    match p {
        ContentPart::Text { text } => OpenAiContentPart::Text {
            text: text.clone(),
            cache_control: None,
        },
        ContentPart::Image { media_type, data } => {
            let mut url = concat("data:", media_type.as_str());
            url.append(";base64,");
            url.append(base64_encode(data).as_str());
            OpenAiContentPart::ImageUrl { url }
        },
    }
}

/// A piece as a tree.
pub open spec fn openai_part_tree(part: OpenAiPartView) -> JsonTree {
    match part {
        OpenAiPartView::Text { text, cache_control } => JsonTree::Object(
            object_of(
                seq![("type"@, text_tree("text"@)), ("text"@, text_tree(text))] + opt_field(
                    "cache_control"@,
                    cache_tree(cache_control),
                ),
            ),
        ),
        OpenAiPartView::ImageUrl { url } => JsonTree::Object(
            object_of(
                seq![
                    ("type"@, text_tree("image_url"@)),
                    ("image_url"@, JsonTree::Object(object_of(seq![("url"@, text_tree(url))]))),
                ],
            ),
        ),
    }
}

impl OpenAiContentPart {
    /// This piece in JSON.
    pub fn to_json(&self) -> (value: serde_json::Value)
        ensures
            tree_of(value) == openai_part_tree(self@),
    {
        let mut fields = no_fields();
        match self {
            OpenAiContentPart::Text { text, cache_control } => {
                put(&mut fields, "type", string("text".to_owned()));
                put(&mut fields, "text", string(text.clone()));
                assert(field_trees(fields@) =~= seq![
                    ("type"@, text_tree("text"@)),
                    ("text"@, text_tree(text@)),
                ]);
                put_cache(&mut fields, *cache_control);
            },
            OpenAiContentPart::ImageUrl { url } => {
                let mut inner = no_fields();
                put(&mut inner, "url", string(url.clone()));
                assert(field_trees(inner@) =~= seq![("url"@, text_tree(url@))]);
                put(&mut fields, "type", string("image_url".to_owned()));
                put(&mut fields, "image_url", object(inner));
                assert(field_trees(fields@) =~= seq![
                    ("type"@, text_tree("image_url"@)),
                    ("image_url"@, JsonTree::Object(object_of(seq![("url"@, text_tree(url@))]))),
                ]);
            },
        }
        object(fields)
    }
}

/// The content of a message: pieces, or for the outcome of a tool call a text.
#[derive(Debug)]
pub enum OpenAiMessageContent {
    Parts(Vec<OpenAiContentPart>),
    ToolString(String),
}

/// The content of a message as a value.
pub enum OpenAiContentView {
    Parts(Seq<OpenAiPartView>),
    ToolString(Seq<char>),
}

impl View for OpenAiMessageContent {
    type V = OpenAiContentView;

    open spec fn view(&self) -> OpenAiContentView {
        match self {
            OpenAiMessageContent::Parts(parts) => OpenAiContentView::Parts(openai_parts_of(parts@)),
            OpenAiMessageContent::ToolString(text) => OpenAiContentView::ToolString(text@),
        }
    }
}

/// The function that a tool call is for, with the text of its arguments.
#[derive(Debug)]
pub struct OpenAiFunctionCall {
    pub name: String,
    pub arguments: String,
}

/// A tool call.
#[derive(Debug)]
pub struct OpenAiToolCall {
    pub id: String,
    pub type_: Option<String>,
    pub function: OpenAiFunctionCall,
}

/// A tool call as a value.
pub struct OpenAiToolCallView {
    pub id: Seq<char>,
    pub type_: Option<Seq<char>>,
    pub name: Seq<char>,
    pub arguments: Seq<char>,
}

impl View for OpenAiToolCall {
    type V = OpenAiToolCallView;

    open spec fn view(&self) -> OpenAiToolCallView {
        OpenAiToolCallView {
            id: self.id@,
            type_: opt_text(self.type_),
            name: self.function.name@,
            arguments: self.function.arguments@,
        }
    }
}

/// Tool calls as values.
pub open spec fn openai_calls_of(calls: Seq<OpenAiToolCall>) -> Seq<OpenAiToolCallView> {
    calls.map_values(|c: OpenAiToolCall| c@)
}

/// A text, or null where there is none.
pub open spec fn text_or_null(text: Option<Seq<char>>) -> JsonTree {
    match text {
        Some(text) => text_tree(text),
        None => JsonTree::Null,
    }
}

/// A tool call as a tree.
pub open spec fn openai_call_tree(call: OpenAiToolCallView) -> JsonTree {
    JsonTree::Object(
        object_of(
            seq![
                ("id"@, text_tree(call.id)),
                ("type"@, text_or_null(call.type_)),
                (
                    "function"@,
                    JsonTree::Object(
                        object_of(
                            seq![
                                ("name"@, text_tree(call.name)),
                                ("arguments"@, text_tree(call.arguments)),
                            ],
                        ),
                    ),
                ),
            ],
        ),
    )
}

impl OpenAiToolCall {
    /// This call in JSON.
    pub fn to_json(&self) -> (value: serde_json::Value)
        ensures
            tree_of(value) == openai_call_tree(self@),
    {
        let mut function = no_fields();
        put(&mut function, "name", string(self.function.name.clone()));
        put(&mut function, "arguments", string(self.function.arguments.clone()));
        let ghost function_trees = seq![
            ("name"@, text_tree(self@.name)),
            ("arguments"@, text_tree(self@.arguments)),
        ];
        assert(field_trees(function@) =~= function_trees);
        let mut fields = no_fields();
        put(&mut fields, "id", string(self.id.clone()));
        put(
            &mut fields,
            "type",
            match &self.type_ {
                Some(text) => string(text.clone()),
                None => null(),
            },
        );
        put(&mut fields, "function", object(function));
        assert(field_trees(fields@) =~= seq![
            ("id"@, text_tree(self@.id)),
            ("type"@, text_or_null(self@.type_)),
            ("function"@, JsonTree::Object(object_of(function_trees))),
        ]);
        object(fields)
    }
}

/// A message.
#[derive(Debug)]
pub struct OpenAiMessage {
    pub role: Role,
    pub content: OpenAiMessageContent,
    pub tool_call_id: Option<String>,
    pub tool_calls: Option<Vec<OpenAiToolCall>>,
}

/// A message as a value.
pub struct OpenAiMessageView {
    pub role: Role,
    pub content: OpenAiContentView,
    pub tool_call_id: Option<Seq<char>>,
    pub tool_calls: Option<Seq<OpenAiToolCallView>>,
}

impl View for OpenAiMessage {
    type V = OpenAiMessageView;

    open spec fn view(&self) -> OpenAiMessageView {
        OpenAiMessageView {
            role: self.role,
            content: self.content@,
            tool_call_id: opt_text(self.tool_call_id),
            tool_calls: match self.tool_calls {
                Some(calls) => Some(openai_calls_of(calls@)),
                None => None,
            },
        }
    }
}

/// Messages as values.
pub open spec fn openai_messages_of(messages: Seq<OpenAiMessage>) -> Seq<OpenAiMessageView> {
    messages.map_values(|m: OpenAiMessage| m@)
}

/// The name of a role.
pub open spec fn role_name(role: Role) -> Seq<char> {
    match role {
        Role::System => "system"@,
        Role::User => "user"@,
        Role::Assistant => "assistant"@,
        Role::Tool => "tool"@,
    }
}

fn role_text(role: Role) -> (name: &'static str)
    ensures
        name@ == role_name(role),
{
    match role {
        Role::System => "system",
        Role::User => "user",
        Role::Assistant => "assistant",
        Role::Tool => "tool",
    }
}

/// The content of a message as a tree.
pub open spec fn openai_content_tree(content: OpenAiContentView) -> JsonTree {
    match content {
        OpenAiContentView::Parts(parts) => JsonTree::List(
            parts.map_values(|p: OpenAiPartView| openai_part_tree(p)),
        ),
        OpenAiContentView::ToolString(text) => text_tree(text),
    }
}

/// The tool calls of a message as a tree.
pub open spec fn openai_calls_tree(calls: Option<Seq<OpenAiToolCallView>>) -> Option<JsonTree> {
    match calls {
        Some(calls) => Some(
            JsonTree::List(calls.map_values(|c: OpenAiToolCallView| openai_call_tree(c))),
        ),
        None => None,
    }
}

/// A message as a tree.
pub open spec fn openai_message_tree(message: OpenAiMessageView) -> JsonTree {
    JsonTree::Object(
        object_of(
            seq![
                ("role"@, text_tree(role_name(message.role))),
                ("content"@, openai_content_tree(message.content)),
            ] + opt_field("tool_call_id"@, opt_text_tree(message.tool_call_id)) + opt_field(
                "tool_calls"@,
                openai_calls_tree(message.tool_calls),
            ),
        ),
    )
}

impl OpenAiMessageContent {
    /// This content in JSON.
    pub fn to_json(&self) -> (value: serde_json::Value)
        ensures
            tree_of(value) == openai_content_tree(self@),
    {
        match self {
            OpenAiMessageContent::Parts(parts) => {
                let mut items: Vec<serde_json::Value> = Vec::new();
                let mut i: usize = 0;
                while i < parts.len()
                    invariant
                        i <= parts@.len(),
                        items@.len() == i,
                        forall|j: int|
                            0 <= j < i ==> tree_of(#[trigger] items@[j]) == openai_part_tree(
                                parts@[j]@,
                            ),
                    decreases parts@.len() - i,
                {
                    items.push(parts[i].to_json());
                    i = i + 1;
                }
                assert(trees_of(items@) =~= openai_parts_of(parts@).map_values(
                    |p: OpenAiPartView| openai_part_tree(p),
                ));
                list(items)
            },
            OpenAiMessageContent::ToolString(text) => string(text.clone()),
        }
    }
}

impl OpenAiMessage {
    /// This message in JSON.
    pub fn to_json(&self) -> (value: serde_json::Value)
        ensures
            tree_of(value) == openai_message_tree(self@),
    {
        let mut fields = no_fields();
        put(&mut fields, "role", string(role_text(self.role).to_owned()));
        put(&mut fields, "content", self.content.to_json());
        assert(field_trees(fields@) =~= seq![
            ("role"@, text_tree(role_name(self@.role))),
            ("content"@, openai_content_tree(self@.content)),
        ]);
        put_text(&mut fields, "tool_call_id", &self.tool_call_id);
        let calls = match &self.tool_calls {
            Some(calls) => {
                let mut items: Vec<serde_json::Value> = Vec::new();
                let mut i: usize = 0;
                while i < calls.len()
                    invariant
                        i <= calls@.len(),
                        items@.len() == i,
                        forall|j: int|
                            0 <= j < i ==> tree_of(#[trigger] items@[j]) == openai_call_tree(
                                calls@[j]@,
                            ),
                    decreases calls@.len() - i,
                {
                    items.push(calls[i].to_json());
                    i = i + 1;
                }
                assert(trees_of(items@) =~= openai_calls_of(calls@).map_values(
                    |c: OpenAiToolCallView| openai_call_tree(c),
                ));
                Some(list(items))
            },
            None => None,
        };
        put_opt(&mut fields, "tool_calls", calls);
        object(fields)
    }
}

/// A tool.
#[derive(Debug)]
pub struct OpenAiTool {
    pub name: String,
    pub description: Option<String>,
    pub parameters: serde_json::Value,
    pub strict: Option<bool>,
}

/// A tool as a value.
pub struct OpenAiToolView {
    pub name: Seq<char>,
    pub description: Option<Seq<char>>,
    pub parameters: JsonTree,
    pub strict: Option<bool>,
}

impl View for OpenAiTool {
    type V = OpenAiToolView;

    open spec fn view(&self) -> OpenAiToolView {
        OpenAiToolView {
            name: self.name@,
            description: opt_text(self.description),
            parameters: tree_of(self.parameters),
            strict: self.strict,
        }
    }
}

/// Tools as values.
pub open spec fn openai_tools_of(tools: Seq<OpenAiTool>) -> Seq<OpenAiToolView> {
    tools.map_values(|t: OpenAiTool| t@)
}

/// A truth value that may be there, as a tree.
pub open spec fn opt_bool_tree(b: Option<bool>) -> Option<JsonTree> {
    match b {
        Some(b) => Some(JsonTree::Bool(b)),
        None => None,
    }
}

fn put_bool(fields: &mut Vec<(String, serde_json::Value)>, name: &str, b: Option<bool>)
    ensures
        field_trees(final(fields)@) == field_trees(old(fields)@)
            + opt_field(name@, opt_bool_tree(b)),
{
    put_opt(
        fields,
        name,
        match b {
            Some(b) => Some(boolean(b)),
            None => None,
        },
    );
}

/// A tool as a tree.
pub open spec fn openai_tool_tree(tool: OpenAiToolView) -> JsonTree {
    JsonTree::Object(
        object_of(
            seq![
                ("type"@, text_tree("function"@)),
                (
                    "function"@,
                    JsonTree::Object(
                        object_of(
                            seq![("name"@, text_tree(tool.name))] + opt_field(
                                "description"@,
                                opt_text_tree(tool.description),
                            ) + seq![("parameters"@, tool.parameters)] + opt_field(
                                "strict"@,
                                opt_bool_tree(tool.strict),
                            ),
                        ),
                    ),
                ),
            ],
        ),
    )
}

impl OpenAiTool {
    /// This tool in JSON.
    pub fn to_json(&self) -> (value: serde_json::Value)
        ensures
            tree_of(value) == openai_tool_tree(self@),
    {
        let mut function = no_fields();
        put(&mut function, "name", string(self.name.clone()));
        assert(field_trees(function@) =~= seq![("name"@, text_tree(self@.name))]);
        put_text(&mut function, "description", &self.description);
        put(&mut function, "parameters", self.parameters.clone());
        put_bool(&mut function, "strict", self.strict);
        let ghost function_trees = field_trees(function@);
        let mut fields = no_fields();
        put(&mut fields, "type", string("function".to_owned()));
        put(&mut fields, "function", object(function));
        assert(field_trees(fields@) =~= seq![
            ("type"@, text_tree("function"@)),
            ("function"@, JsonTree::Object(object_of(function_trees))),
        ]);
        object(fields)
    }
}

/// Whether the model may call tools.
#[derive(Debug)]
pub enum OpenAiToolChoice {
    Keyword(&'static str),
    Specific { name: String },
}

/// Such a choice as a value.
pub enum OpenAiChoiceView {
    Keyword(Seq<char>),
    Specific(Seq<char>),
}

impl View for OpenAiToolChoice {
    type V = OpenAiChoiceView;

    open spec fn view(&self) -> OpenAiChoiceView {
        match self {
            OpenAiToolChoice::Keyword(word) => OpenAiChoiceView::Keyword(word@),
            OpenAiToolChoice::Specific { name } => OpenAiChoiceView::Specific(name@),
        }
    }
}

/// A choice in the OpenAI shape.
pub open spec fn openai_choice(choice: ToolChoiceView) -> OpenAiChoiceView {
    match choice {
        ToolChoiceView::Auto => OpenAiChoiceView::Keyword("auto"@),
        ToolChoiceView::Never => OpenAiChoiceView::Keyword("none"@),
        ToolChoiceView::Required => OpenAiChoiceView::Keyword("required"@),
        ToolChoiceView::Specific(name) => OpenAiChoiceView::Specific(name),
    }
}

/// A choice as a tree.
pub open spec fn openai_choice_tree(choice: OpenAiChoiceView) -> JsonTree {
    match choice {
        OpenAiChoiceView::Keyword(word) => text_tree(word),
        OpenAiChoiceView::Specific(name) => JsonTree::Object(
            object_of(
                seq![
                    ("type"@, text_tree("function"@)),
                    ("function"@, JsonTree::Object(object_of(seq![("name"@, text_tree(name))]))),
                ],
            ),
        ),
    }
}

impl OpenAiToolChoice {
    /// The choice in the OpenAI shape.
    pub fn from(c: &ToolChoice) -> (choice: OpenAiToolChoice)
        ensures
            choice@ == openai_choice(c@),
    {
        match c {
            ToolChoice::Auto => OpenAiToolChoice::Keyword("auto"),
            ToolChoice::Never => OpenAiToolChoice::Keyword("none"),
            ToolChoice::Required => OpenAiToolChoice::Keyword("required"),
            ToolChoice::Specific(name) => OpenAiToolChoice::Specific { name: name.clone() },
        }
    }

    /// This choice in JSON.
    pub fn to_json(&self) -> (value: serde_json::Value)
        ensures
            tree_of(value) == openai_choice_tree(self@),
    {
        match self {
            OpenAiToolChoice::Keyword(word) => string((*word).to_owned()),
            OpenAiToolChoice::Specific { name } => {
                let mut function = no_fields();
                put(&mut function, "name", string(name.clone()));
                assert(field_trees(function@) =~= seq![("name"@, text_tree(name@))]);
                let mut fields = no_fields();
                put(&mut fields, "type", string("function".to_owned()));
                put(&mut fields, "function", object(function));
                assert(field_trees(fields@) =~= seq![
                    ("type"@, text_tree("function"@)),
                    ("function"@, JsonTree::Object(object_of(seq![("name"@, text_tree(name@))]))),
                ]);
                object(fields)
            },
        }
    }
}

/// A chat request.
#[derive(Debug)]
pub struct OpenAiChatRequest {
    pub model: String,
    pub messages: Vec<OpenAiMessage>,
    pub temperature: Option<Decimal>,
    pub top_p: Option<Decimal>,
    pub top_k: Option<u32>,
    pub min_p: Option<Decimal>,
    pub presence_penalty: Option<Decimal>,
    pub frequency_penalty: Option<Decimal>,
    pub repetition_penalty: Option<Decimal>,
    pub max_tokens: Option<u32>,
    pub max_completion_tokens: Option<u32>,
    pub stop: Vec<String>,
    pub seed: Option<u64>,
    pub tools: Vec<OpenAiTool>,
    pub tool_choice: Option<OpenAiToolChoice>,
    pub parallel_tool_calls: Option<bool>,
    pub prompt_cache_key: Option<String>,
    pub stream: bool,
    /// Whether a streamed answer is to tell its usage.
    pub include_usage: bool,
}

/// A chat request as a value.
pub struct OpenAiRequestView {
    pub model: Seq<char>,
    pub messages: Seq<OpenAiMessageView>,
    pub temperature: Option<Decimal>,
    pub top_p: Option<Decimal>,
    pub top_k: Option<u32>,
    pub min_p: Option<Decimal>,
    pub presence_penalty: Option<Decimal>,
    pub frequency_penalty: Option<Decimal>,
    pub repetition_penalty: Option<Decimal>,
    pub max_tokens: Option<u32>,
    pub max_completion_tokens: Option<u32>,
    pub stop: Seq<Seq<char>>,
    pub seed: Option<u64>,
    pub tools: Seq<OpenAiToolView>,
    pub tool_choice: Option<OpenAiChoiceView>,
    pub parallel_tool_calls: Option<bool>,
    pub prompt_cache_key: Option<Seq<char>>,
    pub stream: bool,
    pub include_usage: bool,
}

impl View for OpenAiChatRequest {
    type V = OpenAiRequestView;

    open spec fn view(&self) -> OpenAiRequestView {
        OpenAiRequestView {
            model: self.model@,
            messages: openai_messages_of(self.messages@),
            temperature: self.temperature,
            top_p: self.top_p,
            top_k: self.top_k,
            min_p: self.min_p,
            presence_penalty: self.presence_penalty,
            frequency_penalty: self.frequency_penalty,
            repetition_penalty: self.repetition_penalty,
            max_tokens: self.max_tokens,
            max_completion_tokens: self.max_completion_tokens,
            stop: texts(self.stop@),
            seed: self.seed,
            tools: openai_tools_of(self.tools@),
            tool_choice: match self.tool_choice {
                Some(choice) => Some(choice@),
                None => None,
            },
            parallel_tool_calls: self.parallel_tool_calls,
            prompt_cache_key: opt_text(self.prompt_cache_key),
            stream: self.stream,
            include_usage: self.include_usage,
        }
    }
}

/// A list that is left out where it is empty.
pub open spec fn nonempty_list(items: Seq<JsonTree>) -> Option<JsonTree> {
    if items.len() == 0 {
        None
    } else {
        Some(JsonTree::List(items))
    }
}

/// Texts as trees.
pub open spec fn text_trees(list: Seq<Seq<char>>) -> Seq<JsonTree> {
    list.map_values(|s: Seq<char>| text_tree(s))
}

/// The fields of a chat request.
pub open spec fn openai_request_fields(req: OpenAiRequestView) -> Seq<(Seq<char>, JsonTree)> {
    seq![
        ("model"@, text_tree(req.model)),
        (
            "messages"@,
            JsonTree::List(
                req.messages.map_values(|m: OpenAiMessageView| openai_message_tree(m)),
            ),
        ),
    ] + opt_field("temperature"@, opt_decimal_tree(req.temperature)) + opt_field(
        "top_p"@,
        opt_decimal_tree(req.top_p),
    ) + opt_field("top_k"@, opt_count_tree(req.top_k)) + opt_field(
        "min_p"@,
        opt_decimal_tree(req.min_p),
    ) + opt_field("presence_penalty"@, opt_decimal_tree(req.presence_penalty)) + opt_field(
        "frequency_penalty"@,
        opt_decimal_tree(req.frequency_penalty),
    ) + opt_field("repetition_penalty"@, opt_decimal_tree(req.repetition_penalty)) + opt_field(
        "max_tokens"@,
        opt_count_tree(req.max_tokens),
    ) + opt_field("max_completion_tokens"@, opt_count_tree(req.max_completion_tokens)) + opt_field(
        "stop"@,
        nonempty_list(text_trees(req.stop)),
    ) + opt_field(
        "seed"@,
        match req.seed {
            Some(n) => Some(count_tree(n as nat)),
            None => None,
        },
    ) + opt_field(
        "tools"@,
        nonempty_list(req.tools.map_values(|t: OpenAiToolView| openai_tool_tree(t))),
    ) + opt_field(
        "tool_choice"@,
        match req.tool_choice {
            Some(choice) => Some(openai_choice_tree(choice)),
            None => None,
        },
    ) + opt_field("parallel_tool_calls"@, opt_bool_tree(req.parallel_tool_calls)) + opt_field(
        "prompt_cache_key"@,
        opt_text_tree(req.prompt_cache_key),
    ) + seq![("stream"@, JsonTree::Bool(req.stream))] + opt_field(
        "stream_options"@,
        if req.include_usage {
            Some(JsonTree::Object(object_of(seq![("include_usage"@, JsonTree::Bool(true))])))
        } else {
            None
        },
    )
}

/// A chat request as a tree. What is not set is left out.
pub open spec fn openai_request_tree(req: OpenAiRequestView) -> JsonTree {
    JsonTree::Object(object_of(openai_request_fields(req)))
}

fn put_list(
    fields: &mut Vec<(String, serde_json::Value)>,
    name: &str,
    items: Vec<serde_json::Value>,
)
    ensures
        field_trees(final(fields)@) == field_trees(old(fields)@)
            + opt_field(name@, nonempty_list(trees_of(items@))),
{
    assert(trees_of(items@).len() == items@.len());
    put_opt(
        fields,
        name,
        if items.len() == 0 {
            None
        } else {
            Some(list(items))
        },
    );
}

fn text_values(list: &Vec<String>) -> (items: Vec<serde_json::Value>)
    ensures
        trees_of(items@) == text_trees(texts(list@)),
{
    let mut items: Vec<serde_json::Value> = Vec::new();
    let mut i: usize = 0;
    while i < list.len()
        invariant
            i <= list@.len(),
            items@.len() == i,
            forall|j: int| 0 <= j < i ==> tree_of(#[trigger] items@[j]) == text_tree(list@[j]@),
        decreases list@.len() - i,
    {
        items.push(string(list[i].clone()));
        i = i + 1;
    }
    assert(trees_of(items@) =~= text_trees(texts(list@)));
    items
}

impl OpenAiChatRequest {
    /// Asks for the answer in one piece; all else stays as it is.
    pub fn ask_whole(&mut self)
        ensures
            final(self)@ == (OpenAiRequestView { stream: false, ..old(self)@ }),
    {
        self.stream = false;
    }

    fn message_values(&self) -> (items: Vec<serde_json::Value>)
        ensures
            trees_of(items@) == self@.messages.map_values(
                |m: OpenAiMessageView| openai_message_tree(m),
            ),
    {
        let mut items: Vec<serde_json::Value> = Vec::new();
        let mut i: usize = 0;
        while i < self.messages.len()
            invariant
                i <= self.messages@.len(),
                items@.len() == i,
                forall|j: int|
                    0 <= j < i ==> tree_of(#[trigger] items@[j]) == openai_message_tree(
                        self.messages@[j]@,
                    ),
            decreases self.messages@.len() - i,
        {
            items.push(self.messages[i].to_json());
            i = i + 1;
        }
        assert(trees_of(items@) =~= self@.messages.map_values(
            |m: OpenAiMessageView| openai_message_tree(m),
        ));
        items
    }

    fn tool_values(&self) -> (items: Vec<serde_json::Value>)
        ensures
            trees_of(items@) == self@.tools.map_values(|t: OpenAiToolView| openai_tool_tree(t)),
    {
        let mut items: Vec<serde_json::Value> = Vec::new();
        let mut i: usize = 0;
        while i < self.tools.len()
            invariant
                i <= self.tools@.len(),
                items@.len() == i,
                forall|j: int|
                    0 <= j < i ==> tree_of(#[trigger] items@[j]) == openai_tool_tree(
                        self.tools@[j]@,
                    ),
            decreases self.tools@.len() - i,
        {
            items.push(self.tools[i].to_json());
            i = i + 1;
        }
        assert(trees_of(items@) =~= self@.tools.map_values(
            |t: OpenAiToolView| openai_tool_tree(t),
        ));
        items
    }

    /// This request in JSON.
    pub fn to_json(&self) -> (value: serde_json::Value)
        ensures
            tree_of(value) == openai_request_tree(self@),
    {
        let mut fields = no_fields();
        put(&mut fields, "model", string(self.model.clone()));
        put(&mut fields, "messages", list(self.message_values()));
        assert(field_trees(fields@) =~= seq![
            ("model"@, text_tree(self@.model)),
            (
                "messages"@,
                JsonTree::List(
                    self@.messages.map_values(|m: OpenAiMessageView| openai_message_tree(m)),
                ),
            ),
        ]);
        put_decimal(&mut fields, "temperature", self.temperature);
        put_decimal(&mut fields, "top_p", self.top_p);
        put_count(&mut fields, "top_k", self.top_k);
        put_decimal(&mut fields, "min_p", self.min_p);
        put_decimal(&mut fields, "presence_penalty", self.presence_penalty);
        put_decimal(&mut fields, "frequency_penalty", self.frequency_penalty);
        put_decimal(&mut fields, "repetition_penalty", self.repetition_penalty);
        put_count(&mut fields, "max_tokens", self.max_tokens);
        put_count(&mut fields, "max_completion_tokens", self.max_completion_tokens);
        put_list(&mut fields, "stop", text_values(&self.stop));
        put_opt(
            &mut fields,
            "seed",
            match self.seed {
                Some(n) => Some(number(n)),
                None => None,
            },
        );
        put_list(&mut fields, "tools", self.tool_values());
        put_opt(
            &mut fields,
            "tool_choice",
            match &self.tool_choice {
                Some(choice) => Some(choice.to_json()),
                None => None,
            },
        );
        put_bool(&mut fields, "parallel_tool_calls", self.parallel_tool_calls);
        put_text(&mut fields, "prompt_cache_key", &self.prompt_cache_key);
        put(&mut fields, "stream", boolean(self.stream));
        let options = if self.include_usage {
            let mut inner = no_fields();
            put(&mut inner, "include_usage", boolean(true));
            assert(field_trees(inner@) =~= seq![
                ("include_usage"@, JsonTree::Bool(true)),
            ]);
            Some(object(inner))
        } else {
            None
        };
        put_opt(&mut fields, "stream_options", options);
        assert(field_trees(fields@) == openai_request_fields(self@));
        object(fields)
    }
}

// ---------------------------------------------------------------------------
// Anthropic requests

/// A block of the system prompt.
#[derive(Debug)]
pub struct AnthropicSystemBlock {
    pub text: String,
    pub cache_control: Option<AnthropicCacheControl>,
}

/// A block of the system prompt as a value.
pub struct SystemBlockView {
    pub text: Seq<char>,
    pub cache_control: Option<AnthropicCacheControl>,
}

impl View for AnthropicSystemBlock {
    type V = SystemBlockView;

    open spec fn view(&self) -> SystemBlockView {
        SystemBlockView { text: self.text@, cache_control: self.cache_control }
    }
}

/// Blocks of the system prompt as values.
pub open spec fn system_blocks_of(blocks: Seq<AnthropicSystemBlock>) -> Seq<SystemBlockView> {
    blocks.map_values(|b: AnthropicSystemBlock| b@)
}

/// A block of text as a tree.
pub open spec fn text_block_tree(
    text: Seq<char>,
    cache_control: Option<AnthropicCacheControl>,
) -> JsonTree {
    JsonTree::Object(
        object_of(
            seq![("type"@, text_tree("text"@)), ("text"@, text_tree(text))] + opt_field(
                "cache_control"@,
                cache_tree(cache_control),
            ),
        ),
    )
}

fn text_block(text: &String, cache_control: Option<AnthropicCacheControl>) -> (value:
    serde_json::Value)
    ensures
        tree_of(value) == text_block_tree(text@, cache_control),
{
    let mut fields = no_fields();
    put(&mut fields, "type", string("text".to_owned()));
    put(&mut fields, "text", string(text.clone()));
    assert(field_trees(fields@) =~= seq![
        ("type"@, text_tree("text"@)),
        ("text"@, text_tree(text@)),
    ]);
    put_cache(&mut fields, cache_control);
    object(fields)
}

impl AnthropicSystemBlock {
    pub fn text(text: String) -> (block: AnthropicSystemBlock)
        ensures
            block@ == (SystemBlockView { text: text@, cache_control: None }),
    {
        AnthropicSystemBlock { text, cache_control: None }
    }

    /// This block in JSON.
    pub fn to_json(&self) -> (value: serde_json::Value)
        ensures
            tree_of(value) == text_block_tree(self@.text, self@.cache_control),
    {
        text_block(&self.text, self.cache_control)
    }
}

/// A block of a message.
#[derive(Debug)]
pub enum AnthropicContentBlock {
    Text { text: String, cache_control: Option<AnthropicCacheControl> },
    /// A picture, in base64.
    Image { media_type: String, data: String },
    ToolUse { id: String, name: String, input: serde_json::Value },
    ToolResult {
        tool_use_id: String,
        content: String,
        is_error: Option<bool>,
        cache_control: Option<AnthropicCacheControl>,
    },
}

/// A block of a message as a value.
#[allow(inconsistent_fields)]
pub enum BlockView {
    Text { text: Seq<char>, cache_control: Option<AnthropicCacheControl> },
    Image { media_type: Seq<char>, data: Seq<char> },
    ToolUse { id: Seq<char>, name: Seq<char>, input: JsonTree },
    ToolResult {
        tool_use_id: Seq<char>,
        content: Seq<char>,
        is_error: Option<bool>,
        cache_control: Option<AnthropicCacheControl>,
    },
}

impl View for AnthropicContentBlock {
    type V = BlockView;

    open spec fn view(&self) -> BlockView {
        match self {
            AnthropicContentBlock::Text { text, cache_control } => BlockView::Text {
                text: text@,
                cache_control: *cache_control,
            },
            AnthropicContentBlock::Image { media_type, data } => BlockView::Image {
                media_type: media_type@,
                data: data@,
            },
            AnthropicContentBlock::ToolUse { id, name, input } => BlockView::ToolUse {
                id: id@,
                name: name@,
                input: tree_of(*input),
            },
            AnthropicContentBlock::ToolResult { tool_use_id, content, is_error, cache_control } =>
                BlockView::ToolResult {
                    tool_use_id: tool_use_id@,
                    content: content@,
                    is_error: *is_error,
                    cache_control: *cache_control,
                },
        }
    }
}

/// Blocks as values.
pub open spec fn blocks_of(blocks: Seq<AnthropicContentBlock>) -> Seq<BlockView> {
    blocks.map_values(|b: AnthropicContentBlock| b@)
}

/// A piece in the Anthropic shape.
pub open spec fn anthropic_block(part: PartView) -> BlockView {
    match part {
        PartView::Text(text) => BlockView::Text { text, cache_control: None },
        PartView::Image { media_type, data } => BlockView::Image {
            media_type,
            data: base64_text(data),
        },
    }
}

/// A piece in the Anthropic shape.
///
/// What comes back of such a block is the piece that it was made of.
pub fn to_anthropic_content_block(p: &ContentPart) -> (block: AnthropicContentBlock)
    ensures
        block@ == anthropic_block(p@),
        block_part(block@) == Some(p@),
{
    match p {
        ContentPart::Text { text } => AnthropicContentBlock::Text {
            text: text.clone(),
            cache_control: None,
        },
        ContentPart::Image { media_type, data } => AnthropicContentBlock::Image {
            media_type: media_type.clone(),
            data: base64_encode(data),
        },
    }
}

/// A block as a tree.
pub open spec fn block_tree(block: BlockView) -> JsonTree {
    match block {
        BlockView::Text { text, cache_control } => text_block_tree(text, cache_control),
        BlockView::Image { media_type, data } => JsonTree::Object(
            object_of(
                seq![
                    ("type"@, text_tree("image"@)),
                    (
                        "source"@,
                        JsonTree::Object(
                            object_of(
                                seq![
                                    ("type"@, text_tree("base64"@)),
                                    ("media_type"@, text_tree(media_type)),
                                    ("data"@, text_tree(data)),
                                ],
                            ),
                        ),
                    ),
                ],
            ),
        ),
        BlockView::ToolUse { id, name, input } => JsonTree::Object(
            object_of(
                seq![
                    ("type"@, text_tree("tool_use"@)),
                    ("id"@, text_tree(id)),
                    ("name"@, text_tree(name)),
                    ("input"@, input),
                ],
            ),
        ),
        BlockView::ToolResult { tool_use_id, content, is_error, cache_control } => JsonTree::Object(
            object_of(
                seq![
                    ("type"@, text_tree("tool_result"@)),
                    ("tool_use_id"@, text_tree(tool_use_id)),
                    ("content"@, text_tree(content)),
                ] + opt_field("is_error"@, opt_bool_tree(is_error)) + opt_field(
                    "cache_control"@,
                    cache_tree(cache_control),
                ),
            ),
        ),
    }
}

impl AnthropicContentBlock {
    /// This block in JSON.
    pub fn to_json(&self) -> (value: serde_json::Value)
        ensures
            tree_of(value) == block_tree(self@),
    {
        let mut fields = no_fields();
        match self {
            AnthropicContentBlock::Text { text, cache_control } => {
                return text_block(text, *cache_control);
            },
            AnthropicContentBlock::Image { media_type, data } => {
                let mut source = no_fields();
                put(&mut source, "type", string("base64".to_owned()));
                put(&mut source, "media_type", string(media_type.clone()));
                put(&mut source, "data", string(data.clone()));
                let ghost source_trees = seq![
                    ("type"@, text_tree("base64"@)),
                    ("media_type"@, text_tree(media_type@)),
                    ("data"@, text_tree(data@)),
                ];
                assert(field_trees(source@) =~= source_trees);
                put(&mut fields, "type", string("image".to_owned()));
                put(&mut fields, "source", object(source));
                assert(field_trees(fields@) =~= seq![
                    ("type"@, text_tree("image"@)),
                    ("source"@, JsonTree::Object(object_of(source_trees))),
                ]);
            },
            AnthropicContentBlock::ToolUse { id, name, input } => {
                put(&mut fields, "type", string("tool_use".to_owned()));
                put(&mut fields, "id", string(id.clone()));
                put(&mut fields, "name", string(name.clone()));
                put(&mut fields, "input", input.clone());
                assert(field_trees(fields@) =~= seq![
                    ("type"@, text_tree("tool_use"@)),
                    ("id"@, text_tree(id@)),
                    ("name"@, text_tree(name@)),
                    ("input"@, tree_of(*input)),
                ]);
            },
            AnthropicContentBlock::ToolResult { tool_use_id, content, is_error, cache_control } => {
                put(&mut fields, "type", string("tool_result".to_owned()));
                put(&mut fields, "tool_use_id", string(tool_use_id.clone()));
                put(&mut fields, "content", string(content.clone()));
                assert(field_trees(fields@) =~= seq![
                    ("type"@, text_tree("tool_result"@)),
                    ("tool_use_id"@, text_tree(tool_use_id@)),
                    ("content"@, text_tree(content@)),
                ]);
                put_bool(&mut fields, "is_error", *is_error);
                put_cache(&mut fields, *cache_control);
            },
        }
        object(fields)
    }
}

/// A message. Its role is that of the model, or else that of the user.
#[derive(Debug)]
pub struct AnthropicMessage {
    pub from_model: bool,
    pub content: Vec<AnthropicContentBlock>,
}

/// A message as a value.
pub struct AnthropicMessageView {
    pub from_model: bool,
    pub content: Seq<BlockView>,
}

impl View for AnthropicMessage {
    type V = AnthropicMessageView;

    open spec fn view(&self) -> AnthropicMessageView {
        AnthropicMessageView { from_model: self.from_model, content: blocks_of(self.content@) }
    }
}

/// Messages as values.
pub open spec fn anthropic_messages_of(messages: Seq<AnthropicMessage>) -> Seq<
    AnthropicMessageView,
> {
    messages.map_values(|m: AnthropicMessage| m@)
}

/// The role of a message.
pub open spec fn anthropic_role(from_model: bool) -> Seq<char> {
    if from_model {
        "assistant"@
    } else {
        "user"@
    }
}

/// A message as a tree.
pub open spec fn anthropic_message_tree(message: AnthropicMessageView) -> JsonTree {
    JsonTree::Object(
        object_of(
            seq![
                ("role"@, text_tree(anthropic_role(message.from_model))),
                (
                    "content"@,
                    JsonTree::List(message.content.map_values(|b: BlockView| block_tree(b))),
                ),
            ],
        ),
    )
}

impl AnthropicMessage {
    /// This message in JSON.
    pub fn to_json(&self) -> (value: serde_json::Value)
        ensures
            tree_of(value) == anthropic_message_tree(self@),
    {
        let mut items: Vec<serde_json::Value> = Vec::new();
        let mut i: usize = 0;
        while i < self.content.len()
            invariant
                i <= self.content@.len(),
                items@.len() == i,
                forall|j: int|
                    0 <= j < i ==> tree_of(#[trigger] items@[j]) == block_tree(self.content@[j]@),
            decreases self.content@.len() - i,
        {
            items.push(self.content[i].to_json());
            i = i + 1;
        }
        let ghost trees = self@.content.map_values(|b: BlockView| block_tree(b));
        assert(trees_of(items@) =~= trees);
        let mut fields = no_fields();
        put(
            &mut fields,
            "role",
            string(
                (if self.from_model {
                    "assistant"
                } else {
                    "user"
                }).to_owned(),
            ),
        );
        put(&mut fields, "content", list(items));
        assert(field_trees(fields@) =~= seq![
            ("role"@, text_tree(anthropic_role(self@.from_model))),
            ("content"@, JsonTree::List(trees)),
        ]);
        object(fields)
    }
}

/// A tool.
#[derive(Debug)]
pub struct AnthropicTool {
    pub name: String,
    pub description: Option<String>,
    pub input_schema: serde_json::Value,
    pub cache_control: Option<AnthropicCacheControl>,
}

/// A tool as a value.
pub struct AnthropicToolView {
    pub name: Seq<char>,
    pub description: Option<Seq<char>>,
    pub input_schema: JsonTree,
    pub cache_control: Option<AnthropicCacheControl>,
}

impl View for AnthropicTool {
    type V = AnthropicToolView;

    open spec fn view(&self) -> AnthropicToolView {
        AnthropicToolView {
            name: self.name@,
            description: opt_text(self.description),
            input_schema: tree_of(self.input_schema),
            cache_control: self.cache_control,
        }
    }
}

/// Tools as values.
pub open spec fn anthropic_tools_of(tools: Seq<AnthropicTool>) -> Seq<AnthropicToolView> {
    tools.map_values(|t: AnthropicTool| t@)
}

/// A tool as a tree.
pub open spec fn anthropic_tool_tree(tool: AnthropicToolView) -> JsonTree {
    JsonTree::Object(
        object_of(
            seq![("name"@, text_tree(tool.name))] + opt_field(
                "description"@,
                opt_text_tree(tool.description),
            ) + seq![("input_schema"@, tool.input_schema)] + opt_field(
                "cache_control"@,
                cache_tree(tool.cache_control),
            ),
        ),
    )
}

impl AnthropicTool {
    /// This tool in JSON.
    pub fn to_json(&self) -> (value: serde_json::Value)
        ensures
            tree_of(value) == anthropic_tool_tree(self@),
    {
        let mut fields = no_fields();
        put(&mut fields, "name", string(self.name.clone()));
        assert(field_trees(fields@) =~= seq![("name"@, text_tree(self@.name))]);
        put_text(&mut fields, "description", &self.description);
        put(&mut fields, "input_schema", self.input_schema.clone());
        put_cache(&mut fields, self.cache_control);
        object(fields)
    }
}

/// Whether the model may call tools.
#[derive(Debug)]
pub enum AnthropicToolChoice {
    Auto,
    Any,
    Tool { name: String },
}

/// Such a choice as a value.
pub enum AnthropicChoiceView {
    Auto,
    Any,
    Tool(Seq<char>),
}

impl View for AnthropicToolChoice {
    type V = AnthropicChoiceView;

    open spec fn view(&self) -> AnthropicChoiceView {
        match self {
            AnthropicToolChoice::Auto => AnthropicChoiceView::Auto,
            AnthropicToolChoice::Any => AnthropicChoiceView::Any,
            AnthropicToolChoice::Tool { name } => AnthropicChoiceView::Tool(name@),
        }
    }
}

/// A choice in the Anthropic shape, which has none for not calling tools.
pub open spec fn anthropic_choice(choice: ToolChoiceView) -> Option<AnthropicChoiceView> {
    match choice {
        ToolChoiceView::Auto => Some(AnthropicChoiceView::Auto),
        ToolChoiceView::Required => Some(AnthropicChoiceView::Any),
        ToolChoiceView::Specific(name) => Some(AnthropicChoiceView::Tool(name)),
        ToolChoiceView::Never => None,
    }
}

/// A choice that may be there, as a value.
pub open spec fn opt_choice(choice: Option<AnthropicToolChoice>) -> Option<AnthropicChoiceView> {
    match choice {
        Some(choice) => Some(choice@),
        None => None,
    }
}

/// A choice as a tree.
pub open spec fn anthropic_choice_tree(choice: AnthropicChoiceView) -> JsonTree {
    match choice {
        AnthropicChoiceView::Auto => JsonTree::Object(object_of(seq![("type"@, text_tree("auto"@))])),
        AnthropicChoiceView::Any => JsonTree::Object(object_of(seq![("type"@, text_tree("any"@))])),
        AnthropicChoiceView::Tool(name) => JsonTree::Object(
            object_of(seq![("type"@, text_tree("tool"@)), ("name"@, text_tree(name))]),
        ),
    }
}

impl AnthropicToolChoice {
    /// The choice in the Anthropic shape.
    pub fn from(c: &ToolChoice) -> (choice: Option<AnthropicToolChoice>)
        ensures
            opt_choice(choice) == anthropic_choice(c@),
    {
        match c {
            ToolChoice::Auto => Some(AnthropicToolChoice::Auto),
            ToolChoice::Required => Some(AnthropicToolChoice::Any),
            ToolChoice::Specific(name) => Some(AnthropicToolChoice::Tool { name: name.clone() }),
            ToolChoice::Never => None,
        }
    }

    /// This choice in JSON.
    pub fn to_json(&self) -> (value: serde_json::Value)
        ensures
            tree_of(value) == anthropic_choice_tree(self@),
    {
        let mut fields = no_fields();
        match self {
            AnthropicToolChoice::Auto => {
                put(&mut fields, "type", string("auto".to_owned()));
                assert(field_trees(fields@) =~= seq![("type"@, text_tree("auto"@))]);
            },
            AnthropicToolChoice::Any => {
                put(&mut fields, "type", string("any".to_owned()));
                assert(field_trees(fields@) =~= seq![("type"@, text_tree("any"@))]);
            },
            AnthropicToolChoice::Tool { name } => {
                put(&mut fields, "type", string("tool".to_owned()));
                put(&mut fields, "name", string(name.clone()));
                assert(field_trees(fields@) =~= seq![
                    ("type"@, text_tree("tool"@)),
                    ("name"@, text_tree(name@)),
                ]);
            },
        }
        object(fields)
    }
}

/// A chat request.
#[derive(Debug)]
pub struct AnthropicRequest {
    pub model: String,
    pub system: Vec<AnthropicSystemBlock>,
    pub messages: Vec<AnthropicMessage>,
    pub max_tokens: u32,
    pub temperature: Option<Decimal>,
    pub top_p: Option<Decimal>,
    pub top_k: Option<u32>,
    pub stop_sequences: Vec<String>,
    pub tools: Vec<AnthropicTool>,
    pub tool_choice: Option<AnthropicToolChoice>,
    /// The tokens that the model may think, where it is to think.
    pub thinking_tokens: Option<u32>,
}

/// A chat request as a value.
pub struct AnthropicRequestView {
    pub model: Seq<char>,
    pub system: Seq<SystemBlockView>,
    pub messages: Seq<AnthropicMessageView>,
    pub max_tokens: u32,
    pub temperature: Option<Decimal>,
    pub top_p: Option<Decimal>,
    pub top_k: Option<u32>,
    pub stop_sequences: Seq<Seq<char>>,
    pub tools: Seq<AnthropicToolView>,
    pub tool_choice: Option<AnthropicChoiceView>,
    pub thinking_tokens: Option<u32>,
}

impl View for AnthropicRequest {
    type V = AnthropicRequestView;

    open spec fn view(&self) -> AnthropicRequestView {
        AnthropicRequestView {
            model: self.model@,
            system: system_blocks_of(self.system@),
            messages: anthropic_messages_of(self.messages@),
            max_tokens: self.max_tokens,
            temperature: self.temperature,
            top_p: self.top_p,
            top_k: self.top_k,
            stop_sequences: texts(self.stop_sequences@),
            tools: anthropic_tools_of(self.tools@),
            tool_choice: opt_choice(self.tool_choice),
            thinking_tokens: self.thinking_tokens,
        }
    }
}

/// The thinking that a model is asked for, as a tree.
pub open spec fn thinking_tree(tokens: Option<u32>) -> Option<JsonTree> {
    match tokens {
        Some(n) => Some(
            JsonTree::Object(
                object_of(
                    seq![
                        ("type"@, text_tree("enabled"@)),
                        ("budget_tokens"@, count_tree(n as nat)),
                    ],
                ),
            ),
        ),
        None => None,
    }
}

/// The fields of a chat request.
pub open spec fn anthropic_request_fields(req: AnthropicRequestView) -> Seq<
    (Seq<char>, JsonTree),
> {
    seq![("model"@, text_tree(req.model))] + opt_field(
        "system"@,
        nonempty_list(
            req.system.map_values(|b: SystemBlockView| text_block_tree(b.text, b.cache_control)),
        ),
    ) + seq![
        (
            "messages"@,
            JsonTree::List(
                req.messages.map_values(|m: AnthropicMessageView| anthropic_message_tree(m)),
            ),
        ),
    ] + seq![("max_tokens"@, count_tree(req.max_tokens as nat))] + opt_field(
        "temperature"@,
        opt_decimal_tree(req.temperature),
    ) + opt_field("top_p"@, opt_decimal_tree(req.top_p)) + opt_field(
        "top_k"@,
        opt_count_tree(req.top_k),
    ) + opt_field("stop_sequences"@, nonempty_list(text_trees(req.stop_sequences))) + opt_field(
        "tools"@,
        nonempty_list(req.tools.map_values(|t: AnthropicToolView| anthropic_tool_tree(t))),
    ) + opt_field(
        "tool_choice"@,
        match req.tool_choice {
            Some(choice) => Some(anthropic_choice_tree(choice)),
            None => None,
        },
    ) + opt_field("thinking"@, thinking_tree(req.thinking_tokens))
}

/// A chat request as a tree. What is not set is left out.
pub open spec fn anthropic_request_tree(req: AnthropicRequestView) -> JsonTree {
    JsonTree::Object(object_of(anthropic_request_fields(req)))
}

/// A chat request for a streamed answer as a tree.
pub open spec fn anthropic_stream_tree(req: AnthropicRequestView) -> JsonTree {
    JsonTree::Object(
        object_of(anthropic_request_fields(req)).insert("stream"@, JsonTree::Bool(true)),
    )
}

/// A request for a streamed answer asks for one, and all else in it is as in the
/// request for the answer in one piece.
pub proof fn streamed_request_differs_in_stream_alone(req: AnthropicRequestView, key: Seq<char>)
    ensures
        anthropic_stream_tree(req).field("stream"@) == Some(JsonTree::Bool(true)),
        key != "stream"@ ==> anthropic_stream_tree(req).field(key) == anthropic_request_tree(
            req,
        ).field(key),
{
}

impl AnthropicRequest {
    fn system_values(&self) -> (items: Vec<serde_json::Value>)
        ensures
            trees_of(items@) == self@.system.map_values(
                |b: SystemBlockView| text_block_tree(b.text, b.cache_control),
            ),
    {
        let mut items: Vec<serde_json::Value> = Vec::new();
        let mut i: usize = 0;
        while i < self.system.len()
            invariant
                i <= self.system@.len(),
                items@.len() == i,
                forall|j: int|
                    0 <= j < i ==> tree_of(#[trigger] items@[j]) == text_block_tree(
                        self.system@[j]@.text,
                        self.system@[j]@.cache_control,
                    ),
            decreases self.system@.len() - i,
        {
            items.push(self.system[i].to_json());
            i = i + 1;
        }
        assert(trees_of(items@) =~= self@.system.map_values(
            |b: SystemBlockView| text_block_tree(b.text, b.cache_control),
        ));
        items
    }

    fn message_values(&self) -> (items: Vec<serde_json::Value>)
        ensures
            trees_of(items@) == self@.messages.map_values(
                |m: AnthropicMessageView| anthropic_message_tree(m),
            ),
    {
        let mut items: Vec<serde_json::Value> = Vec::new();
        let mut i: usize = 0;
        while i < self.messages.len()
            invariant
                i <= self.messages@.len(),
                items@.len() == i,
                forall|j: int|
                    0 <= j < i ==> tree_of(#[trigger] items@[j]) == anthropic_message_tree(
                        self.messages@[j]@,
                    ),
            decreases self.messages@.len() - i,
        {
            items.push(self.messages[i].to_json());
            i = i + 1;
        }
        assert(trees_of(items@) =~= self@.messages.map_values(
            |m: AnthropicMessageView| anthropic_message_tree(m),
        ));
        items
    }

    fn tool_values(&self) -> (items: Vec<serde_json::Value>)
        ensures
            trees_of(items@) == self@.tools.map_values(
                |t: AnthropicToolView| anthropic_tool_tree(t),
            ),
    {
        let mut items: Vec<serde_json::Value> = Vec::new();
        let mut i: usize = 0;
        while i < self.tools.len()
            invariant
                i <= self.tools@.len(),
                items@.len() == i,
                forall|j: int|
                    0 <= j < i ==> tree_of(#[trigger] items@[j]) == anthropic_tool_tree(
                        self.tools@[j]@,
                    ),
            decreases self.tools@.len() - i,
        {
            items.push(self.tools[i].to_json());
            i = i + 1;
        }
        assert(trees_of(items@) =~= self@.tools.map_values(
            |t: AnthropicToolView| anthropic_tool_tree(t),
        ));
        items
    }

    /// This request in JSON.
    pub fn to_json(&self) -> (value: serde_json::Value)
        ensures
            tree_of(value) == anthropic_request_tree(self@),
    {
        let mut fields = no_fields();
        put(&mut fields, "model", string(self.model.clone()));
        assert(field_trees(fields@) =~= seq![("model"@, text_tree(self@.model))]);
        put_list(&mut fields, "system", self.system_values());
        put(&mut fields, "messages", list(self.message_values()));
        put(&mut fields, "max_tokens", number(self.max_tokens as u64));
        put_decimal(&mut fields, "temperature", self.temperature);
        put_decimal(&mut fields, "top_p", self.top_p);
        put_count(&mut fields, "top_k", self.top_k);
        put_list(&mut fields, "stop_sequences", text_values(&self.stop_sequences));
        put_list(&mut fields, "tools", self.tool_values());
        put_opt(
            &mut fields,
            "tool_choice",
            match &self.tool_choice {
                Some(choice) => Some(choice.to_json()),
                None => None,
            },
        );
        let thinking = match self.thinking_tokens {
            Some(n) => {
                let mut inner = no_fields();
                put(&mut inner, "type", string("enabled".to_owned()));
                put(&mut inner, "budget_tokens", number(n as u64));
                assert(field_trees(inner@) =~= seq![
                    ("type"@, text_tree("enabled"@)),
                    ("budget_tokens"@, count_tree(n as nat)),
                ]);
                Some(object(inner))
            },
            None => None,
        };
        put_opt(&mut fields, "thinking", thinking);
        assert(field_trees(fields@) == anthropic_request_fields(self@));
        object(fields)
    }

    /// This request in JSON, for a streamed answer.
    pub fn to_stream_json(&self) -> (value: serde_json::Value)
        ensures
            tree_of(value) == anthropic_stream_tree(self@),
    {
        let mut value = self.to_json();
        set_field(&mut value, "stream", boolean(true));
        value
    }
}

} // verus!
