//! What goes out as JSON, field by field.
use crate::client::openai_request;
use crate::json::{
    count_tree, decimal_tree, object_of, opt_count_tree, opt_decimal_tree, opt_field, opt_text_tree,
    JsonTree,
};
use crate::models::{MessageView, Model, Role, ToolChoiceView};
use crate::params::ParamsView;
use crate::request_laws::messages_keep_their_roles;
use crate::wire::{
    anthropic_choice, anthropic_choice_tree, anthropic_message_tree, anthropic_request_fields,
    anthropic_request_tree, anthropic_role, anthropic_stream_tree, anthropic_tool_tree, block_tree,
    cache_tree, nonempty_list, openai_call_tree, openai_calls_tree, openai_choice,
    openai_choice_tree, openai_content_tree, openai_message_tree, openai_part_tree,
    openai_request_fields, openai_request_tree, openai_tool_tree, opt_bool_tree, role_name,
    text_block_tree, text_or_null, text_trees, thinking_tree, AnthropicCacheControl,
    AnthropicMessageView, AnthropicRequestView, AnthropicToolView, BlockView, OpenAiContentView,
    OpenAiMessageView, OpenAiPartView, OpenAiRequestView, OpenAiToolCallView, OpenAiToolView,
    SystemBlockView,
};
use vstd::prelude::*;

verus! {

/// What stands under a name among fields.
pub open spec fn under(fields: Seq<(Seq<char>, JsonTree)>, key: Seq<char>) -> Option<JsonTree> {
    JsonTree::Object(object_of(fields)).field(key)
}

proof fn lemma_behind(a: Seq<(Seq<char>, JsonTree)>, b: Seq<(Seq<char>, JsonTree)>)
    ensures
        forall|key: Seq<char>| #[trigger]
            under(a + b, key) == (if under(b, key) is Some {
                under(b, key)
            } else {
                under(a, key)
            }),
    decreases b.len(),
{
    if b.len() == 0 {
        assert(a + b =~= a);
    } else {
        assert((a + b).drop_last() =~= a + b.drop_last());
        lemma_behind(a, b.drop_last());
        assert forall|key: Seq<char>| #[trigger]
            under(a + b, key) == (if under(b, key) is Some {
                under(b, key)
            } else {
                under(a, key)
            }) by {
            assert(under(a + b.drop_last(), key) == (if under(b.drop_last(), key) is Some {
                under(b.drop_last(), key)
            } else {
                under(a, key)
            }));
        }
    }
}

/// A name that is not given again stands for what it was given with.
pub proof fn lemma_at(fields: Seq<(Seq<char>, JsonTree)>, i: int)
    requires
        0 <= i < fields.len(),
        forall|j: int| i < j < fields.len() ==> (#[trigger] fields[j]).0 != fields[i].0,
    ensures
        under(fields, fields[i].0) == Some(fields[i].1),
    decreases fields.len(),
{
    if i < fields.len() - 1 {
        let front = fields.drop_last();
        assert forall|j: int| i < j < front.len() implies (#[trigger] front[j]).0
            != front[i].0 by {
            assert(fields[j].0 != fields[i].0);
        }
        lemma_at(front, i);
        assert(fields[fields.len() - 1].0 != fields[i].0);
    }
}

proof fn lemma_one(fields: Seq<(Seq<char>, JsonTree)>)
    requires
        fields.len() == 1,
    ensures
        forall|key: Seq<char>| #[trigger]
            under(fields, key) == (if key == fields[0].0 {
                Some(fields[0].1)
            } else {
                None
            }),
{
    assert(fields.drop_last() =~= Seq::empty());
    assert(object_of(fields.drop_last()) =~= Map::empty());
}

proof fn lemma_two(fields: Seq<(Seq<char>, JsonTree)>)
    requires
        fields.len() == 2,
    ensures
        forall|key: Seq<char>| #[trigger]
            under(fields, key) == (if key == fields[1].0 {
                Some(fields[1].1)
            } else if key == fields[0].0 {
                Some(fields[0].1)
            } else {
                None
            }),
{
    lemma_one(fields.drop_last());
    assert forall|key: Seq<char>| #[trigger]
        under(fields, key) == (if key == fields[1].0 {
            Some(fields[1].1)
        } else if key == fields[0].0 {
            Some(fields[0].1)
        } else {
            None
        }) by {
        assert(under(fields.drop_last(), key) is Some == (key == fields[0].0));
    }
}

proof fn lemma_three(fields: Seq<(Seq<char>, JsonTree)>)
    requires
        fields.len() == 3,
    ensures
        forall|key: Seq<char>| #[trigger]
            under(fields, key) == (if key == fields[2].0 {
                Some(fields[2].1)
            } else if key == fields[1].0 {
                Some(fields[1].1)
            } else if key == fields[0].0 {
                Some(fields[0].1)
            } else {
                None
            }),
{
    let front = fields.drop_last();
    lemma_two(front);
    assert forall|key: Seq<char>| #[trigger]
        under(fields, key) == (if key == fields[2].0 {
            Some(fields[2].1)
        } else if key == fields[1].0 {
            Some(fields[1].1)
        } else if key == fields[0].0 {
            Some(fields[0].1)
        } else {
            None
        }) by {
        assert(under(front, key) is Some == (key == front[0].0 || key == front[1].0));
    }
}

/// Fields with one more that may be there.
proof fn lemma_with(fields: Seq<(Seq<char>, JsonTree)>, name: Seq<char>, value: Option<JsonTree>)
    ensures
        forall|key: Seq<char>| #[trigger]
            under(fields + opt_field(name, value), key) == (if key == name && value is Some {
                value
            } else {
                under(fields, key)
            }),
{
    lemma_behind(fields, opt_field(name, value));
    if value is Some {
        lemma_one(opt_field(name, value));
    } else {
        assert(object_of(opt_field(name, value)) =~= Map::empty());
    }
}

/// Fields with one more.
proof fn lemma_plus(fields: Seq<(Seq<char>, JsonTree)>, more: Seq<(Seq<char>, JsonTree)>)
    requires
        more.len() == 1,
    ensures
        forall|key: Seq<char>| #[trigger]
            under(fields + more, key) == (if key == more[0].0 {
                Some(more[0].1)
            } else {
                under(fields, key)
            }),
{
    lemma_behind(fields, more);
    lemma_one(more);
}

/// The words that name fields, told apart.
proof fn lemma_names()
    ensures
        "arguments"@.len() == 9,
        "budget_tokens"@.len() == 13,
        "cache_control"@.len() == 13,
        "content"@.len() == 7,
        "data"@.len() == 4,
        "description"@.len() == 11,
        "frequency_penalty"@.len() == 17,
        "function"@.len() == 8,
        "id"@.len() == 2,
        "image_url"@.len() == 9,
        "include_usage"@.len() == 13,
        "input"@.len() == 5,
        "input_schema"@.len() == 12,
        "is_error"@.len() == 8,
        "max_completion_tokens"@.len() == 21,
        "max_tokens"@.len() == 10,
        "media_type"@.len() == 10,
        "messages"@.len() == 8,
        "min_p"@.len() == 5,
        "model"@.len() == 5,
        "name"@.len() == 4,
        "parallel_tool_calls"@.len() == 19,
        "parameters"@.len() == 10,
        "presence_penalty"@.len() == 16,
        "prompt_cache_key"@.len() == 16,
        "repetition_penalty"@.len() == 18,
        "role"@.len() == 4,
        "seed"@.len() == 4,
        "source"@.len() == 6,
        "stop"@.len() == 4,
        "stop_sequences"@.len() == 14,
        "stream"@.len() == 6,
        "stream_options"@.len() == 14,
        "strict"@.len() == 6,
        "system"@.len() == 6,
        "temperature"@.len() == 11,
        "text"@.len() == 4,
        "thinking"@.len() == 8,
        "tool_call_id"@.len() == 12,
        "tool_calls"@.len() == 10,
        "tool_choice"@.len() == 11,
        "tool_use_id"@.len() == 11,
        "tools"@.len() == 5,
        "top_k"@.len() == 5,
        "top_p"@.len() == 5,
        "type"@.len() == 4,
        "url"@.len() == 3,
        "arguments"@ != "image_url"@,
        "budget_tokens"@ != "cache_control"@,
        "budget_tokens"@ != "include_usage"@,
        "cache_control"@ != "include_usage"@,
        "data"@ != "name"@,
        "data"@ != "role"@,
        "data"@ != "seed"@,
        "data"@ != "stop"@,
        "data"@ != "text"@,
        "data"@ != "type"@,
        "description"@ != "temperature"@,
        "description"@ != "tool_choice"@,
        "description"@ != "tool_use_id"@,
        "function"@ != "is_error"@,
        "function"@ != "messages"@,
        "function"@ != "thinking"@,
        "input"@ != "min_p"@,
        "input"@ != "model"@,
        "input"@ != "tools"@,
        "input"@ != "top_k"@,
        "input"@ != "top_p"@,
        "input_schema"@ != "tool_call_id"@,
        "is_error"@ != "messages"@,
        "is_error"@ != "thinking"@,
        "max_tokens"@ != "media_type"@,
        "max_tokens"@ != "parameters"@,
        "max_tokens"@ != "tool_calls"@,
        "media_type"@ != "parameters"@,
        "media_type"@ != "tool_calls"@,
        "messages"@ != "thinking"@,
        "min_p"@ != "model"@,
        "min_p"@ != "tools"@,
        "min_p"@ != "top_k"@,
        "min_p"@ != "top_p"@,
        "model"@ != "tools"@,
        "model"@ != "top_k"@,
        "model"@ != "top_p"@,
        "name"@ != "role"@,
        "name"@ != "seed"@,
        "name"@ != "stop"@,
        "name"@ != "text"@,
        "name"@ != "type"@,
        "parameters"@ != "tool_calls"@,
        "presence_penalty"@ != "prompt_cache_key"@,
        "role"@ != "seed"@,
        "role"@ != "stop"@,
        "role"@ != "text"@,
        "role"@ != "type"@,
        "seed"@ != "stop"@,
        "seed"@ != "text"@,
        "seed"@ != "type"@,
        "source"@ != "stream"@,
        "source"@ != "strict"@,
        "source"@ != "system"@,
        "stop"@ != "text"@,
        "stop"@ != "type"@,
        "stop_sequences"@ != "stream_options"@,
        "stream"@ != "strict"@,
        "stream"@ != "system"@,
        "strict"@ != "system"@,
        "temperature"@ != "tool_choice"@,
        "temperature"@ != "tool_use_id"@,
        "text"@ != "type"@,
        "tool_choice"@ != "tool_use_id"@,
        "tools"@ != "top_k"@,
        "tools"@ != "top_p"@,
        "top_k"@ != "top_p"@,
{
    reveal_strlit("arguments");
    reveal_strlit("budget_tokens");
    reveal_strlit("cache_control");
    reveal_strlit("content");
    reveal_strlit("data");
    reveal_strlit("description");
    reveal_strlit("frequency_penalty");
    reveal_strlit("function");
    reveal_strlit("id");
    reveal_strlit("image_url");
    reveal_strlit("include_usage");
    reveal_strlit("input");
    reveal_strlit("input_schema");
    reveal_strlit("is_error");
    reveal_strlit("max_completion_tokens");
    reveal_strlit("max_tokens");
    reveal_strlit("media_type");
    reveal_strlit("messages");
    reveal_strlit("min_p");
    reveal_strlit("model");
    reveal_strlit("name");
    reveal_strlit("parallel_tool_calls");
    reveal_strlit("parameters");
    reveal_strlit("presence_penalty");
    reveal_strlit("prompt_cache_key");
    reveal_strlit("repetition_penalty");
    reveal_strlit("role");
    reveal_strlit("seed");
    reveal_strlit("source");
    reveal_strlit("stop");
    reveal_strlit("stop_sequences");
    reveal_strlit("stream");
    reveal_strlit("stream_options");
    reveal_strlit("strict");
    reveal_strlit("system");
    reveal_strlit("temperature");
    reveal_strlit("text");
    reveal_strlit("thinking");
    reveal_strlit("tool_call_id");
    reveal_strlit("tool_calls");
    reveal_strlit("tool_choice");
    reveal_strlit("tool_use_id");
    reveal_strlit("tools");
    reveal_strlit("top_k");
    reveal_strlit("top_p");
    reveal_strlit("type");
    reveal_strlit("url");
    assert("arguments"@[0] != "image_url"@[0]);
    assert("budget_tokens"@[0] != "cache_control"@[0]);
    assert("budget_tokens"@[0] != "include_usage"@[0]);
    assert("cache_control"@[0] != "include_usage"@[0]);
    assert("data"@[0] != "name"@[0]);
    assert("data"@[0] != "role"@[0]);
    assert("data"@[0] != "seed"@[0]);
    assert("data"@[0] != "stop"@[0]);
    assert("data"@[0] != "text"@[0]);
    assert("data"@[0] != "type"@[0]);
    assert("description"@[0] != "temperature"@[0]);
    assert("description"@[0] != "tool_choice"@[0]);
    assert("description"@[0] != "tool_use_id"@[0]);
    assert("function"@[0] != "is_error"@[0]);
    assert("function"@[0] != "messages"@[0]);
    assert("function"@[0] != "thinking"@[0]);
    assert("input"@[0] != "min_p"@[0]);
    assert("input"@[0] != "model"@[0]);
    assert("input"@[0] != "tools"@[0]);
    assert("input"@[0] != "top_k"@[0]);
    assert("input"@[0] != "top_p"@[0]);
    assert("input_schema"@[0] != "tool_call_id"@[0]);
    assert("is_error"@[0] != "messages"@[0]);
    assert("is_error"@[0] != "thinking"@[0]);
    assert("max_tokens"@[1] != "media_type"@[1]);
    assert("max_tokens"@[0] != "parameters"@[0]);
    assert("max_tokens"@[0] != "tool_calls"@[0]);
    assert("media_type"@[0] != "parameters"@[0]);
    assert("media_type"@[0] != "tool_calls"@[0]);
    assert("messages"@[0] != "thinking"@[0]);
    assert("min_p"@[1] != "model"@[1]);
    assert("min_p"@[0] != "tools"@[0]);
    assert("min_p"@[0] != "top_k"@[0]);
    assert("min_p"@[0] != "top_p"@[0]);
    assert("model"@[0] != "tools"@[0]);
    assert("model"@[0] != "top_k"@[0]);
    assert("model"@[0] != "top_p"@[0]);
    assert("name"@[0] != "role"@[0]);
    assert("name"@[0] != "seed"@[0]);
    assert("name"@[0] != "stop"@[0]);
    assert("name"@[0] != "text"@[0]);
    assert("name"@[0] != "type"@[0]);
    assert("parameters"@[0] != "tool_calls"@[0]);
    assert("presence_penalty"@[2] != "prompt_cache_key"@[2]);
    assert("role"@[0] != "seed"@[0]);
    assert("role"@[0] != "stop"@[0]);
    assert("role"@[0] != "text"@[0]);
    assert("role"@[0] != "type"@[0]);
    assert("seed"@[1] != "stop"@[1]);
    assert("seed"@[0] != "text"@[0]);
    assert("seed"@[0] != "type"@[0]);
    assert("source"@[1] != "stream"@[1]);
    assert("source"@[1] != "strict"@[1]);
    assert("source"@[1] != "system"@[1]);
    assert("stop"@[0] != "text"@[0]);
    assert("stop"@[0] != "type"@[0]);
    assert("stop_sequences"@[2] != "stream_options"@[2]);
    assert("stream"@[3] != "strict"@[3]);
    assert("stream"@[1] != "system"@[1]);
    assert("strict"@[1] != "system"@[1]);
    assert("temperature"@[1] != "tool_choice"@[1]);
    assert("temperature"@[1] != "tool_use_id"@[1]);
    assert("text"@[1] != "type"@[1]);
    assert("tool_choice"@[5] != "tool_use_id"@[5]);
    assert("tools"@[2] != "top_k"@[2]);
    assert("tools"@[2] != "top_p"@[2]);
    assert("top_k"@[4] != "top_p"@[4]);
}

/// The fields of a chat request of the OpenAI API hold what the request holds,
/// each under its name, and what is not set is not there.
pub proof fn openai_request_goes_out_field_by_field(req: OpenAiRequestView)
    ensures
        ({
            let tree = openai_request_tree(req);
            &&& tree.field("model"@) == Some(JsonTree::Text(req.model))
            &&& tree.field("messages"@) == Some(
                JsonTree::List(
                    req.messages.map_values(|m: OpenAiMessageView| openai_message_tree(m)),
                ),
            )
            &&& tree.field("temperature"@) == (match req.temperature {
                Some(x) => Some(decimal_tree(x)),
                None => None,
            })
            &&& tree.field("top_p"@) == (match req.top_p {
                Some(x) => Some(decimal_tree(x)),
                None => None,
            })
            &&& tree.field("min_p"@) == (match req.min_p {
                Some(x) => Some(decimal_tree(x)),
                None => None,
            })
            &&& tree.field("presence_penalty"@) == (match req.presence_penalty {
                Some(x) => Some(decimal_tree(x)),
                None => None,
            })
            &&& tree.field("frequency_penalty"@) == (match req.frequency_penalty {
                Some(x) => Some(decimal_tree(x)),
                None => None,
            })
            &&& tree.field("repetition_penalty"@) == (match req.repetition_penalty {
                Some(x) => Some(decimal_tree(x)),
                None => None,
            })
            &&& tree.field("top_k"@) == (match req.top_k {
                Some(x) => Some(count_tree(x as nat)),
                None => None,
            })
            &&& tree.field("max_tokens"@) == (match req.max_tokens {
                Some(x) => Some(count_tree(x as nat)),
                None => None,
            })
            &&& tree.field("max_completion_tokens"@) == (match req.max_completion_tokens {
                Some(x) => Some(count_tree(x as nat)),
                None => None,
            })
            &&& tree.field("seed"@) == (match req.seed {
                Some(x) => Some(count_tree(x as nat)),
                None => None,
            })
            &&& tree.field("parallel_tool_calls"@) == (match req.parallel_tool_calls {
                Some(x) => Some(JsonTree::Bool(x)),
                None => None,
            })
            &&& tree.field("prompt_cache_key"@) == (match req.prompt_cache_key {
                Some(x) => Some(JsonTree::Text(x)),
                None => None,
            })
            &&& tree.field("tool_choice"@) == (match req.tool_choice {
                Some(x) => Some(openai_choice_tree(x)),
                None => None,
            })
            &&& req.stop.len() == 0 ==> tree.field("stop"@) is None
            &&& req.stop.len() > 0 ==> tree.field("stop"@) == Some(
                JsonTree::List(req.stop.map_values(|s: Seq<char>| JsonTree::Text(s))),
            )
            &&& req.tools.len() == 0 ==> tree.field("tools"@) is None
            &&& req.tools.len() > 0 ==> tree.field("tools"@) == Some(
                JsonTree::List(req.tools.map_values(|t: OpenAiToolView| openai_tool_tree(t))),
            )
            &&& tree.field("stream"@) == Some(JsonTree::Bool(req.stream))
            &&& !req.include_usage ==> tree.field("stream_options"@) is None
            &&& req.include_usage ==> tree.field("stream_options"@) is Some
                && tree.field("stream_options"@)->0.field("include_usage"@) == Some(
                JsonTree::Bool(true),
            )
        }),
{
    lemma_names();
    lemma_one(seq![("include_usage"@, JsonTree::Bool(true))]);
    assert(text_trees(req.stop) =~= req.stop.map_values(|s: Seq<char>| JsonTree::Text(s)));
    lemma_openai_field(req, "model"@);
    lemma_openai_field(req, "messages"@);
    lemma_openai_field(req, "temperature"@);
    lemma_openai_field(req, "top_p"@);
    lemma_openai_field(req, "top_k"@);
    lemma_openai_field(req, "min_p"@);
    lemma_openai_field(req, "presence_penalty"@);
    lemma_openai_field(req, "frequency_penalty"@);
    lemma_openai_field(req, "repetition_penalty"@);
    lemma_openai_field(req, "max_tokens"@);
    lemma_openai_field(req, "max_completion_tokens"@);
    lemma_openai_field(req, "stop"@);
    lemma_openai_field(req, "seed"@);
    lemma_openai_field(req, "tools"@);
    lemma_openai_field(req, "tool_choice"@);
    lemma_openai_field(req, "parallel_tool_calls"@);
    lemma_openai_field(req, "prompt_cache_key"@);
    lemma_openai_field(req, "stream"@);
    lemma_openai_field(req, "stream_options"@);
    assert(under(seq![("include_usage"@, JsonTree::Bool(true))], "include_usage"@) is Some);
}

proof fn lemma_openai_field(req: OpenAiRequestView, key: Seq<char>)
    ensures
        openai_request_tree(req).field(key) == under(openai_request_fields(req), key),
        under(openai_request_fields(req), key) == ({
            let value1 = opt_decimal_tree(req.temperature);
            let value2 = opt_decimal_tree(req.top_p);
            let value3 = opt_count_tree(req.top_k);
            let value4 = opt_decimal_tree(req.min_p);
            let value5 = opt_decimal_tree(req.presence_penalty);
            let value6 = opt_decimal_tree(req.frequency_penalty);
            let value7 = opt_decimal_tree(req.repetition_penalty);
            let value8 = opt_count_tree(req.max_tokens);
            let value9 = opt_count_tree(req.max_completion_tokens);
            let value10 = nonempty_list(text_trees(req.stop));
            let value11 = match req.seed { Some(n) => Some(count_tree(n as nat)), None => None };
            let value12 = nonempty_list(
                req.tools.map_values(|t: OpenAiToolView| openai_tool_tree(t)),
            );
            let value13 = match req.tool_choice {
                Some(choice) => Some(openai_choice_tree(choice)),
                None => None,
            };
            let value14 = opt_bool_tree(req.parallel_tool_calls);
            let value15 = opt_text_tree(req.prompt_cache_key);
            let value16 = JsonTree::Bool(req.stream);
            let value17 = if req.include_usage {
                Some(JsonTree::Object(object_of(seq![("include_usage"@, JsonTree::Bool(true))])))
            } else {
                None
            };
            if key == "stream_options"@ && value17 is Some {
                value17
            } else if key == "stream"@ {
                Some(value16)
            } else if key == "prompt_cache_key"@ && value15 is Some {
                value15
            } else if key == "parallel_tool_calls"@ && value14 is Some {
                value14
            } else if key == "tool_choice"@ && value13 is Some {
                value13
            } else if key == "tools"@ && value12 is Some {
                value12
            } else if key == "seed"@ && value11 is Some {
                value11
            } else if key == "stop"@ && value10 is Some {
                value10
            } else if key == "max_completion_tokens"@ && value9 is Some {
                value9
            } else if key == "max_tokens"@ && value8 is Some {
                value8
            } else if key == "repetition_penalty"@ && value7 is Some {
                value7
            } else if key == "frequency_penalty"@ && value6 is Some {
                value6
            } else if key == "presence_penalty"@ && value5 is Some {
                value5
            } else if key == "min_p"@ && value4 is Some {
                value4
            } else if key == "top_k"@ && value3 is Some {
                value3
            } else if key == "top_p"@ && value2 is Some {
                value2
            } else if key == "temperature"@ && value1 is Some {
                value1
            } else if key == "messages"@ {
                Some(
                    JsonTree::List(
                        req.messages.map_values(|m: OpenAiMessageView| openai_message_tree(m)),
                    ),
                )
            } else if key == "model"@ {
                Some(JsonTree::Text(req.model))
            } else {
                None
            }
        }),
{
    let fields0 = seq![
        ("model"@, JsonTree::Text(req.model)),
        (
            "messages"@,
            JsonTree::List(req.messages.map_values(|m: OpenAiMessageView| openai_message_tree(m))),
        ),
    ];
    lemma_two(fields0);
    let value1 = opt_decimal_tree(req.temperature);
    let fields1 = fields0 + opt_field("temperature"@, value1);
    lemma_with(fields0, "temperature"@, value1);
    let value2 = opt_decimal_tree(req.top_p);
    let fields2 = fields1 + opt_field("top_p"@, value2);
    lemma_with(fields1, "top_p"@, value2);
    let value3 = opt_count_tree(req.top_k);
    let fields3 = fields2 + opt_field("top_k"@, value3);
    lemma_with(fields2, "top_k"@, value3);
    let value4 = opt_decimal_tree(req.min_p);
    let fields4 = fields3 + opt_field("min_p"@, value4);
    lemma_with(fields3, "min_p"@, value4);
    let value5 = opt_decimal_tree(req.presence_penalty);
    let fields5 = fields4 + opt_field("presence_penalty"@, value5);
    lemma_with(fields4, "presence_penalty"@, value5);
    let value6 = opt_decimal_tree(req.frequency_penalty);
    let fields6 = fields5 + opt_field("frequency_penalty"@, value6);
    lemma_with(fields5, "frequency_penalty"@, value6);
    let value7 = opt_decimal_tree(req.repetition_penalty);
    let fields7 = fields6 + opt_field("repetition_penalty"@, value7);
    lemma_with(fields6, "repetition_penalty"@, value7);
    let value8 = opt_count_tree(req.max_tokens);
    let fields8 = fields7 + opt_field("max_tokens"@, value8);
    lemma_with(fields7, "max_tokens"@, value8);
    let value9 = opt_count_tree(req.max_completion_tokens);
    let fields9 = fields8 + opt_field("max_completion_tokens"@, value9);
    lemma_with(fields8, "max_completion_tokens"@, value9);
    let value10 = nonempty_list(text_trees(req.stop));
    let fields10 = fields9 + opt_field("stop"@, value10);
    lemma_with(fields9, "stop"@, value10);
    let value11 = match req.seed { Some(n) => Some(count_tree(n as nat)), None => None };
    let fields11 = fields10 + opt_field("seed"@, value11);
    lemma_with(fields10, "seed"@, value11);
    let value12 = nonempty_list(req.tools.map_values(|t: OpenAiToolView| openai_tool_tree(t)));
    let fields12 = fields11 + opt_field("tools"@, value12);
    lemma_with(fields11, "tools"@, value12);
    let value13 = match req.tool_choice {
        Some(choice) => Some(openai_choice_tree(choice)),
        None => None,
    };
    let fields13 = fields12 + opt_field("tool_choice"@, value13);
    lemma_with(fields12, "tool_choice"@, value13);
    let value14 = opt_bool_tree(req.parallel_tool_calls);
    let fields14 = fields13 + opt_field("parallel_tool_calls"@, value14);
    lemma_with(fields13, "parallel_tool_calls"@, value14);
    let value15 = opt_text_tree(req.prompt_cache_key);
    let fields15 = fields14 + opt_field("prompt_cache_key"@, value15);
    lemma_with(fields14, "prompt_cache_key"@, value15);
    let value16 = JsonTree::Bool(req.stream);
    let fields16 = fields15 + seq![("stream"@, value16)];
    lemma_plus(fields15, seq![("stream"@, value16)]);
    let value17 = if req.include_usage {
        Some(JsonTree::Object(object_of(seq![("include_usage"@, JsonTree::Bool(true))])))
    } else {
        None
    };
    let fields17 = fields16 + opt_field("stream_options"@, value17);
    lemma_with(fields16, "stream_options"@, value17);
    assert(openai_request_fields(req) == fields17);
}

/// A message of the OpenAI API goes out with the word for its role, its content,
/// and where they are set, the id of the call that it answers and its tool calls.
pub proof fn openai_message_goes_out_field_by_field(message: OpenAiMessageView)
    ensures
        ({
            let tree = openai_message_tree(message);
            &&& tree.field("role"@) == Some(
                JsonTree::Text(
                    match message.role {
                        Role::System => "system"@,
                        Role::User => "user"@,
                        Role::Assistant => "assistant"@,
                        Role::Tool => "tool"@,
                    },
                ),
            )
            &&& tree.field("content"@) == Some(
                match message.content {
                    OpenAiContentView::Parts(parts) => JsonTree::List(
                        parts.map_values(|p: OpenAiPartView| openai_part_tree(p)),
                    ),
                    OpenAiContentView::ToolString(text) => JsonTree::Text(text),
                },
            )
            &&& tree.field("tool_call_id"@) == (match message.tool_call_id {
                Some(id) => Some(JsonTree::Text(id)),
                None => None,
            })
            &&& tree.field("tool_calls"@) == (match message.tool_calls {
                Some(calls) => Some(
                    JsonTree::List(calls.map_values(|c: OpenAiToolCallView| openai_call_tree(c))),
                ),
                None => None,
            })
        }),
{
    lemma_names();
    let fields0 = seq![
        ("role"@, JsonTree::Text(role_name(message.role))),
        ("content"@, openai_content_tree(message.content)),
    ];
    lemma_two(fields0);
    let value1 = opt_text_tree(message.tool_call_id);
    let fields1 = fields0 + opt_field("tool_call_id"@, value1);
    lemma_with(fields0, "tool_call_id"@, value1);
    let value2 = openai_calls_tree(message.tool_calls);
    let fields2 = fields1 + opt_field("tool_calls"@, value2);
    lemma_with(fields1, "tool_calls"@, value2);
    assert(openai_message_tree(message).field("role"@) == under(fields2, "role"@));
    assert(openai_message_tree(message).field("content"@) == under(fields2, "content"@));
    assert(openai_message_tree(message).field("tool_call_id"@) == under(fields2, "tool_call_id"@));
    assert(openai_message_tree(message).field("tool_calls"@) == under(fields2, "tool_calls"@));
}

/// A tool call goes out with its id, its type, and the name and the arguments of
/// its function.
pub proof fn openai_call_goes_out_field_by_field(call: OpenAiToolCallView)
    ensures
        ({
            let tree = openai_call_tree(call);
            &&& tree.field("id"@) == Some(JsonTree::Text(call.id))
            &&& tree.field("type"@) == Some(
                match call.type_ {
                    Some(word) => JsonTree::Text(word),
                    None => JsonTree::Null,
                },
            )
            &&& tree.field("function"@) is Some
            &&& tree.field("function"@)->0.field("name"@) == Some(JsonTree::Text(call.name))
            &&& tree.field("function"@)->0.field("arguments"@) == Some(
                JsonTree::Text(call.arguments),
            )
        }),
{
    lemma_names();
    let inner = seq![
        ("name"@, JsonTree::Text(call.name)),
        ("arguments"@, JsonTree::Text(call.arguments)),
    ];
    lemma_two(inner);
    let outer = seq![
        ("id"@, JsonTree::Text(call.id)),
        ("type"@, text_or_null(call.type_)),
        ("function"@, JsonTree::Object(object_of(inner))),
    ];
    lemma_three(outer);
    assert(openai_call_tree(call) == JsonTree::Object(object_of(outer)));
    assert(under(outer, "id"@) is Some && under(outer, "type"@) is Some);
    assert(under(outer, "function"@) == Some(JsonTree::Object(object_of(inner))));
    assert(under(inner, "name"@) is Some && under(inner, "arguments"@) is Some);
}

/// A text goes out as a text, with its mark if it has one, and a picture by its
/// address.
pub proof fn openai_piece_goes_out_as_what_it_is(part: OpenAiPartView)
    ensures
        ({
            let tree = openai_part_tree(part);
            match part {
                OpenAiPartView::Text { text, cache_control } => {
                    &&& tree.field("type"@) == Some(JsonTree::Text("text"@))
                    &&& tree.field("text"@) == Some(JsonTree::Text(text))
                    &&& cache_control is None ==> tree.field("cache_control"@) is None
                    &&& cache_control is Some ==> tree.field("cache_control"@) is Some
                        && tree.field("cache_control"@)->0.field("type"@) == Some(
                        JsonTree::Text("ephemeral"@),
                    )
                },
                OpenAiPartView::ImageUrl { url } => {
                    &&& tree.field("type"@) == Some(JsonTree::Text("image_url"@))
                    &&& tree.field("image_url"@) is Some
                    &&& tree.field("image_url"@)->0.field("url"@) == Some(JsonTree::Text(url))
                },
            }
        }),
{
    lemma_names();
    match part {
        OpenAiPartView::Text { text, cache_control } => {
            lemma_marked_text(text, cache_control);
            assert(openai_part_tree(part) == text_block_tree(text, cache_control));
        },
        OpenAiPartView::ImageUrl { url } => {
            let inner = seq![("url"@, JsonTree::Text(url))];
            lemma_one(seq![("url"@, JsonTree::Text(url))]);
            let outer = seq![
                ("type"@, JsonTree::Text("image_url"@)),
                ("image_url"@, JsonTree::Object(object_of(inner))),
            ];
            lemma_two(outer);
            assert(openai_part_tree(part) == JsonTree::Object(object_of(outer)));
            assert(under(outer, "type"@) is Some && under(outer, "image_url"@) is Some);
            assert(under(inner, "url"@) is Some);
        },
    }
}

proof fn lemma_mark(mark: Option<AnthropicCacheControl>)
    ensures
        mark is None ==> cache_tree(mark) is None,
        mark is Some ==> cache_tree(mark) is Some && cache_tree(mark)->0.field("type"@) == Some(
            JsonTree::Text("ephemeral"@),
        ),
{
    lemma_one(seq![("type"@, JsonTree::Text("ephemeral"@))]);
    assert(under(seq![("type"@, JsonTree::Text("ephemeral"@))], "type"@) is Some);
}

proof fn lemma_marked_text(text: Seq<char>, mark: Option<AnthropicCacheControl>)
    ensures
        ({
            let tree = text_block_tree(text, mark);
            &&& tree.field("type"@) == Some(JsonTree::Text("text"@))
            &&& tree.field("text"@) == Some(JsonTree::Text(text))
            &&& mark is None ==> tree.field("cache_control"@) is None
            &&& mark is Some ==> tree.field("cache_control"@) is Some && tree.field(
                "cache_control"@,
            )->0.field("type"@) == Some(JsonTree::Text("ephemeral"@))
        }),
{
    lemma_names();
    lemma_mark(mark);
    let fields0 = seq![("type"@, JsonTree::Text("text"@)), ("text"@, JsonTree::Text(text))];
    lemma_two(fields0);
    let fields1 = fields0 + opt_field("cache_control"@, cache_tree(mark));
    lemma_with(fields0, "cache_control"@, cache_tree(mark));
    assert(text_block_tree(text, mark) == JsonTree::Object(object_of(fields1)));
    assert(under(fields1, "type"@) is Some && under(fields1, "text"@) is Some);
    assert(under(fields1, "cache_control"@) == cache_tree(mark));
}

/// A tool of the OpenAI API goes out as a function with its name, its
/// parameters, and where they are set, its description and whether it is strict.
pub proof fn openai_tool_goes_out_field_by_field(tool: OpenAiToolView)
    ensures
        ({
            let tree = openai_tool_tree(tool);
            &&& tree.field("type"@) == Some(JsonTree::Text("function"@))
            &&& tree.field("function"@) is Some
            &&& tree.field("function"@)->0.field("name"@) == Some(JsonTree::Text(tool.name))
            &&& tree.field("function"@)->0.field("parameters"@) == Some(tool.parameters)
            &&& tree.field("function"@)->0.field("description"@) == (match tool.description {
                Some(text) => Some(JsonTree::Text(text)),
                None => None,
            })
            &&& tree.field("function"@)->0.field("strict"@) == (match tool.strict {
                Some(strict) => Some(JsonTree::Bool(strict)),
                None => None,
            })
        }),
{
    lemma_names();
    let fields0 = seq![("name"@, JsonTree::Text(tool.name))];
    lemma_one(seq![("name"@, JsonTree::Text(tool.name))]);
    let value1 = opt_text_tree(tool.description);
    let fields1 = fields0 + opt_field("description"@, value1);
    lemma_with(fields0, "description"@, value1);
    let fields2 = fields1 + seq![("parameters"@, tool.parameters)];
    lemma_plus(fields1, seq![("parameters"@, tool.parameters)]);
    let value3 = opt_bool_tree(tool.strict);
    let fields3 = fields2 + opt_field("strict"@, value3);
    lemma_with(fields2, "strict"@, value3);
    let outer = seq![
        ("type"@, JsonTree::Text("function"@)),
        ("function"@, JsonTree::Object(object_of(fields3))),
    ];
    lemma_two(outer);
    assert(openai_tool_tree(tool) == JsonTree::Object(object_of(outer)));
    assert(under(outer, "type"@) is Some);
    assert(under(outer, "function"@) == Some(JsonTree::Object(object_of(fields3))));
    assert(under(fields3, "name"@) is Some && under(fields3, "parameters"@) is Some);
    assert(under(fields3, "description"@) == value1 && under(fields3, "strict"@) == value3);
}

/// The choice of tools goes out to the OpenAI API as a word, or as the function
/// that is to be called.
pub proof fn openai_choice_goes_out_as_what_it_is(choice: ToolChoiceView)
    ensures
        ({
            let tree = openai_choice_tree(openai_choice(choice));
            match choice {
                ToolChoiceView::Auto => tree == JsonTree::Text("auto"@),
                ToolChoiceView::Never => tree == JsonTree::Text("none"@),
                ToolChoiceView::Required => tree == JsonTree::Text("required"@),
                ToolChoiceView::Specific(name) => {
                    &&& tree.field("type"@) == Some(JsonTree::Text("function"@))
                    &&& tree.field("function"@) is Some
                    &&& tree.field("function"@)->0.field("name"@) == Some(JsonTree::Text(name))
                },
            }
        }),
{
    lemma_names();
    if let ToolChoiceView::Specific(name) = choice {
        let inner = seq![("name"@, JsonTree::Text(name))];
        lemma_one(seq![("name"@, JsonTree::Text(name))]);
        let outer = seq![
            ("type"@, JsonTree::Text("function"@)),
            ("function"@, JsonTree::Object(object_of(inner))),
        ];
        lemma_two(outer);
        assert(under(outer, "type"@) is Some && under(outer, "function"@) is Some);
        assert(under(inner, "name"@) is Some);
        assert(openai_choice_tree(openai_choice(choice)) == JsonTree::Object(object_of(outer)));
    }
}

/// Each message of a chat goes out to the OpenAI API in its place, under the word
/// for its role.
pub proof fn roles_go_out_by_name(
    model: Model,
    messages: Seq<MessageView>,
    params: ParamsView,
    stream: bool,
    include_usage: bool,
    i: int,
)
    requires
        0 <= i < messages.len(),
    ensures
        match openai_request_tree(
            openai_request(model, messages, params, stream, include_usage),
        ).field("messages"@) {
            Some(JsonTree::List(list)) => {
                &&& list.len() == messages.len()
                &&& messages[i].role == Role::System ==> list[i].field("role"@) == Some(
                    JsonTree::Text("system"@),
                )
                &&& messages[i].role == Role::User ==> list[i].field("role"@) == Some(
                    JsonTree::Text("user"@),
                )
                &&& messages[i].role == Role::Assistant ==> list[i].field("role"@) == Some(
                    JsonTree::Text("assistant"@),
                )
                &&& messages[i].role == Role::Tool ==> list[i].field("role"@) == Some(
                    JsonTree::Text("tool"@),
                )
            },
            _ => false,
        },
{
    let req = openai_request(model, messages, params, stream, include_usage);
    messages_keep_their_roles(model, messages, params, stream, include_usage, i);
    openai_request_goes_out_field_by_field(req);
    openai_message_goes_out_field_by_field(req.messages[i]);
}

// ---------------------------------------------------------------------------
// The Anthropic API

/// The fields of a chat request of the Anthropic API hold what the request holds,
/// each under its name, and what is not set is not there. Only a request for a
/// streamed answer says that it is one.
pub proof fn anthropic_request_goes_out_field_by_field(req: AnthropicRequestView, key: Seq<char>)
    ensures
        ({
            let tree = anthropic_request_tree(req);
            &&& tree.field("model"@) == Some(JsonTree::Text(req.model))
            &&& req.system.len() == 0 ==> tree.field("system"@) is None
            &&& req.system.len() > 0 ==> tree.field("system"@) == Some(
                JsonTree::List(
                    req.system.map_values(
                        |b: SystemBlockView| text_block_tree(b.text, b.cache_control),
                    ),
                ),
            )
            &&& tree.field("messages"@) == Some(
                JsonTree::List(
                    req.messages.map_values(|m: AnthropicMessageView| anthropic_message_tree(m)),
                ),
            )
            &&& tree.field("max_tokens"@) == Some(count_tree(req.max_tokens as nat))
            &&& tree.field("temperature"@) == (match req.temperature {
                Some(x) => Some(decimal_tree(x)),
                None => None,
            })
            &&& tree.field("top_p"@) == (match req.top_p {
                Some(x) => Some(decimal_tree(x)),
                None => None,
            })
            &&& tree.field("top_k"@) == (match req.top_k {
                Some(x) => Some(count_tree(x as nat)),
                None => None,
            })
            &&& req.stop_sequences.len() == 0 ==> tree.field("stop_sequences"@) is None
            &&& req.stop_sequences.len() > 0 ==> tree.field("stop_sequences"@) == Some(
                JsonTree::List(req.stop_sequences.map_values(|s: Seq<char>| JsonTree::Text(s))),
            )
            &&& req.tools.len() == 0 ==> tree.field("tools"@) is None
            &&& req.tools.len() > 0 ==> tree.field("tools"@) == Some(
                JsonTree::List(req.tools.map_values(|t: AnthropicToolView| anthropic_tool_tree(t))),
            )
            &&& tree.field("tool_choice"@) == (match req.tool_choice {
                Some(x) => Some(anthropic_choice_tree(x)),
                None => None,
            })
            &&& req.thinking_tokens is None ==> tree.field("thinking"@) is None
            &&& req.thinking_tokens is Some ==> {
                &&& tree.field("thinking"@) is Some
                &&& tree.field("thinking"@)->0.field("type"@) == Some(JsonTree::Text("enabled"@))
                &&& tree.field("thinking"@)->0.field("budget_tokens"@) == Some(
                    count_tree(req.thinking_tokens->0 as nat),
                )
            }
            &&& tree.field("stream"@) is None
            &&& anthropic_stream_tree(req).field("stream"@) == Some(JsonTree::Bool(true))
            &&& key != "stream"@ ==> anthropic_stream_tree(req).field(key) == tree.field(key)
        }),
{
    lemma_names();
    lemma_thinking(req.thinking_tokens);
    assert(text_trees(req.stop_sequences) =~= req.stop_sequences.map_values(
        |s: Seq<char>| JsonTree::Text(s),
    ));
    let fields0 = seq![("model"@, JsonTree::Text(req.model))];
    lemma_one(seq![("model"@, JsonTree::Text(req.model))]);
    let value1 = nonempty_list(
        req.system.map_values(|b: SystemBlockView| text_block_tree(b.text, b.cache_control)),
    );
    let fields1 = fields0 + opt_field("system"@, value1);
    lemma_with(fields0, "system"@, value1);
    let value2 = JsonTree::List(
        req.messages.map_values(|m: AnthropicMessageView| anthropic_message_tree(m)),
    );
    let fields2 = fields1 + seq![("messages"@, value2)];
    lemma_plus(fields1, seq![("messages"@, value2)]);
    let value3 = count_tree(req.max_tokens as nat);
    let fields3 = fields2 + seq![("max_tokens"@, value3)];
    lemma_plus(fields2, seq![("max_tokens"@, value3)]);
    let value4 = opt_decimal_tree(req.temperature);
    let fields4 = fields3 + opt_field("temperature"@, value4);
    lemma_with(fields3, "temperature"@, value4);
    let value5 = opt_decimal_tree(req.top_p);
    let fields5 = fields4 + opt_field("top_p"@, value5);
    lemma_with(fields4, "top_p"@, value5);
    let value6 = opt_count_tree(req.top_k);
    let fields6 = fields5 + opt_field("top_k"@, value6);
    lemma_with(fields5, "top_k"@, value6);
    let value7 = nonempty_list(text_trees(req.stop_sequences));
    let fields7 = fields6 + opt_field("stop_sequences"@, value7);
    lemma_with(fields6, "stop_sequences"@, value7);
    let value8 = nonempty_list(req.tools.map_values(|t: AnthropicToolView| anthropic_tool_tree(t)));
    let fields8 = fields7 + opt_field("tools"@, value8);
    lemma_with(fields7, "tools"@, value8);
    let value9 = match req.tool_choice {
        Some(choice) => Some(anthropic_choice_tree(choice)),
        None => None,
    };
    let fields9 = fields8 + opt_field("tool_choice"@, value9);
    lemma_with(fields8, "tool_choice"@, value9);
    let value10 = thinking_tree(req.thinking_tokens);
    let fields10 = fields9 + opt_field("thinking"@, value10);
    lemma_with(fields9, "thinking"@, value10);
    assert(anthropic_request_fields(req) == fields10);
    assert(anthropic_request_tree(req).field("model"@) == under(
        anthropic_request_fields(req),
        "model"@,
    ));
    assert(anthropic_request_tree(req).field("system"@) == under(
        anthropic_request_fields(req),
        "system"@,
    ));
    assert(anthropic_request_tree(req).field("messages"@) == under(
        anthropic_request_fields(req),
        "messages"@,
    ));
    assert(anthropic_request_tree(req).field("max_tokens"@) == under(
        anthropic_request_fields(req),
        "max_tokens"@,
    ));
    assert(anthropic_request_tree(req).field("temperature"@) == under(
        anthropic_request_fields(req),
        "temperature"@,
    ));
    assert(anthropic_request_tree(req).field("top_p"@) == under(
        anthropic_request_fields(req),
        "top_p"@,
    ));
    assert(anthropic_request_tree(req).field("top_k"@) == under(
        anthropic_request_fields(req),
        "top_k"@,
    ));
    assert(anthropic_request_tree(req).field("stop_sequences"@) == under(
        anthropic_request_fields(req),
        "stop_sequences"@,
    ));
    assert(anthropic_request_tree(req).field("tools"@) == under(
        anthropic_request_fields(req),
        "tools"@,
    ));
    assert(anthropic_request_tree(req).field("tool_choice"@) == under(
        anthropic_request_fields(req),
        "tool_choice"@,
    ));
    assert(anthropic_request_tree(req).field("thinking"@) == under(
        anthropic_request_fields(req),
        "thinking"@,
    ));
    assert(anthropic_request_tree(req).field("stream"@) == under(
        anthropic_request_fields(req),
        "stream"@,
    ));
}

proof fn lemma_thinking(tokens: Option<u32>)
    ensures
        tokens is None ==> thinking_tree(tokens) is None,
        tokens is Some ==> {
            &&& thinking_tree(tokens) is Some
            &&& thinking_tree(tokens)->0.field("type"@) == Some(JsonTree::Text("enabled"@))
            &&& thinking_tree(tokens)->0.field("budget_tokens"@) == Some(
                count_tree(tokens->0 as nat),
            )
        },
{
    lemma_names();
    if let Some(n) = tokens {
        let fields = seq![
            ("type"@, JsonTree::Text("enabled"@)),
            ("budget_tokens"@, count_tree(n as nat)),
        ];
        lemma_two(fields);
        assert(thinking_tree(tokens) == Some(JsonTree::Object(object_of(fields))));
        assert(under(fields, "type"@) is Some && under(fields, "budget_tokens"@) is Some);
    }
}

/// A message of the Anthropic API goes out as one of the assistant where it is
/// from the model, as one of the user where it is not, with its blocks in order.
pub proof fn anthropic_message_goes_out_field_by_field(message: AnthropicMessageView)
    ensures
        ({
            let tree = anthropic_message_tree(message);
            &&& message.from_model ==> tree.field("role"@) == Some(JsonTree::Text("assistant"@))
            &&& !message.from_model ==> tree.field("role"@) == Some(JsonTree::Text("user"@))
            &&& tree.field("content"@) == Some(
                JsonTree::List(message.content.map_values(|b: BlockView| block_tree(b))),
            )
        }),
{
    lemma_names();
    let fields = seq![
        ("role"@, JsonTree::Text(anthropic_role(message.from_model))),
        (
            "content"@,
            JsonTree::List(message.content.map_values(|b: BlockView| block_tree(b))),
        ),
    ];
    lemma_two(fields);
    assert(anthropic_message_tree(message) == JsonTree::Object(object_of(fields)));
    assert(under(fields, "role"@) is Some && under(fields, "content"@) is Some);
}

/// A block of the Anthropic API goes out as what it is, with all that it holds.
pub proof fn anthropic_block_goes_out_as_what_it_is(block: BlockView)
    ensures
        ({
            let tree = block_tree(block);
            match block {
                BlockView::Text { text, cache_control } => {
                    &&& tree.field("type"@) == Some(JsonTree::Text("text"@))
                    &&& tree.field("text"@) == Some(JsonTree::Text(text))
                    &&& cache_control is None ==> tree.field("cache_control"@) is None
                    &&& cache_control is Some ==> tree.field("cache_control"@) is Some
                        && tree.field("cache_control"@)->0.field("type"@) == Some(
                        JsonTree::Text("ephemeral"@),
                    )
                },
                BlockView::Image { media_type, data } => {
                    &&& tree.field("type"@) == Some(JsonTree::Text("image"@))
                    &&& tree.field("source"@) is Some
                    &&& tree.field("source"@)->0.field("type"@) == Some(JsonTree::Text("base64"@))
                    &&& tree.field("source"@)->0.field("media_type"@) == Some(
                        JsonTree::Text(media_type),
                    )
                    &&& tree.field("source"@)->0.field("data"@) == Some(JsonTree::Text(data))
                },
                BlockView::ToolUse { id, name, input } => {
                    &&& tree.field("type"@) == Some(JsonTree::Text("tool_use"@))
                    &&& tree.field("id"@) == Some(JsonTree::Text(id))
                    &&& tree.field("name"@) == Some(JsonTree::Text(name))
                    &&& tree.field("input"@) == Some(input)
                },
                BlockView::ToolResult { tool_use_id, content, is_error, cache_control } => {
                    &&& tree.field("type"@) == Some(JsonTree::Text("tool_result"@))
                    &&& tree.field("tool_use_id"@) == Some(JsonTree::Text(tool_use_id))
                    &&& tree.field("content"@) == Some(JsonTree::Text(content))
                    &&& tree.field("is_error"@) == (match is_error {
                        Some(wrong) => Some(JsonTree::Bool(wrong)),
                        None => None,
                    })
                    &&& cache_control is None ==> tree.field("cache_control"@) is None
                    &&& cache_control is Some ==> tree.field("cache_control"@) is Some
                        && tree.field("cache_control"@)->0.field("type"@) == Some(
                        JsonTree::Text("ephemeral"@),
                    )
                },
            }
        }),
{
    lemma_names();
    match block {
        BlockView::Text { text, cache_control } => {
            lemma_marked_text(text, cache_control);
        },
        BlockView::Image { media_type, data } => {
            let inner = seq![
                ("type"@, JsonTree::Text("base64"@)),
                ("media_type"@, JsonTree::Text(media_type)),
                ("data"@, JsonTree::Text(data)),
            ];
            lemma_three(inner);
            let outer = seq![
                ("type"@, JsonTree::Text("image"@)),
                ("source"@, JsonTree::Object(object_of(inner))),
            ];
            lemma_two(outer);
            assert(block_tree(block) == JsonTree::Object(object_of(outer)));
            assert(under(outer, "type"@) is Some && under(outer, "source"@) is Some);
            assert(under(inner, "type"@) is Some && under(inner, "media_type"@) is Some);
            assert(under(inner, "data"@) is Some);
        },
        BlockView::ToolUse { id, name, input } => {
            let fields0 = seq![
                ("type"@, JsonTree::Text("tool_use"@)),
                ("id"@, JsonTree::Text(id)),
                ("name"@, JsonTree::Text(name)),
            ];
            lemma_three(fields0);
            let fields1 = fields0 + seq![("input"@, input)];
            lemma_plus(fields0, seq![("input"@, input)]);
            let all = seq![
                ("type"@, JsonTree::Text("tool_use"@)),
                ("id"@, JsonTree::Text(id)),
                ("name"@, JsonTree::Text(name)),
                ("input"@, input),
            ];
            assert(all =~= fields1);
            assert(block_tree(block) == JsonTree::Object(object_of(all)));
            assert(under(fields1, "type"@) is Some && under(fields1, "id"@) is Some);
            assert(under(fields1, "name"@) is Some && under(fields1, "input"@) is Some);
        },
        BlockView::ToolResult { tool_use_id, content, is_error, cache_control } => {
            lemma_mark(cache_control);
            let fields0 = seq![
                ("type"@, JsonTree::Text("tool_result"@)),
                ("tool_use_id"@, JsonTree::Text(tool_use_id)),
                ("content"@, JsonTree::Text(content)),
            ];
            lemma_three(fields0);
            let value1 = opt_bool_tree(is_error);
            let fields1 = fields0 + opt_field("is_error"@, value1);
            lemma_with(fields0, "is_error"@, value1);
            let fields2 = fields1 + opt_field("cache_control"@, cache_tree(cache_control));
            lemma_with(fields1, "cache_control"@, cache_tree(cache_control));
            assert(block_tree(block) == JsonTree::Object(object_of(fields2)));
            assert(under(fields2, "type"@) is Some && under(fields2, "tool_use_id"@) is Some);
            assert(under(fields2, "content"@) is Some && under(fields2, "is_error"@) == value1);
            assert(under(fields2, "cache_control"@) == cache_tree(cache_control));
        },
    }
}

/// A tool of the Anthropic API goes out with its name, the schema of its input,
/// and where they are set, its description and its mark.
pub proof fn anthropic_tool_goes_out_field_by_field(tool: AnthropicToolView)
    ensures
        ({
            let tree = anthropic_tool_tree(tool);
            &&& tree.field("name"@) == Some(JsonTree::Text(tool.name))
            &&& tree.field("input_schema"@) == Some(tool.input_schema)
            &&& tree.field("description"@) == (match tool.description {
                Some(text) => Some(JsonTree::Text(text)),
                None => None,
            })
            &&& tool.cache_control is None ==> tree.field("cache_control"@) is None
            &&& tool.cache_control is Some ==> tree.field("cache_control"@) is Some && tree.field(
                "cache_control"@,
            )->0.field("type"@) == Some(JsonTree::Text("ephemeral"@))
        }),
{
    lemma_names();
    lemma_mark(tool.cache_control);
    let fields0 = seq![("name"@, JsonTree::Text(tool.name))];
    lemma_one(seq![("name"@, JsonTree::Text(tool.name))]);
    let value1 = opt_text_tree(tool.description);
    let fields1 = fields0 + opt_field("description"@, value1);
    lemma_with(fields0, "description"@, value1);
    let fields2 = fields1 + seq![("input_schema"@, tool.input_schema)];
    lemma_plus(fields1, seq![("input_schema"@, tool.input_schema)]);
    let value3 = cache_tree(tool.cache_control);
    let fields3 = fields2 + opt_field("cache_control"@, value3);
    lemma_with(fields2, "cache_control"@, value3);
    assert(anthropic_tool_tree(tool) == JsonTree::Object(object_of(fields3)));
    assert(under(fields3, "name"@) is Some && under(fields3, "input_schema"@) is Some);
    assert(under(fields3, "description"@) == value1 && under(fields3, "cache_control"@) == value3);
}

/// The choice of tools goes out to the Anthropic API under the word for it, with
/// the name of the tool that is to be called. Not calling any has no word there.
pub proof fn anthropic_choice_goes_out_as_what_it_is(choice: ToolChoiceView)
    ensures
        choice is Never ==> anthropic_choice(choice) is None,
        !(choice is Never) ==> anthropic_choice(choice) is Some && {
            let tree = anthropic_choice_tree(anthropic_choice(choice)->0);
            match choice {
                ToolChoiceView::Auto => tree.field("type"@) == Some(JsonTree::Text("auto"@)),
                ToolChoiceView::Required => tree.field("type"@) == Some(JsonTree::Text("any"@)),
                ToolChoiceView::Specific(name) => tree.field("type"@) == Some(
                    JsonTree::Text("tool"@),
                ) && tree.field("name"@) == Some(JsonTree::Text(name)),
                ToolChoiceView::Never => false,
            }
        },
{
    lemma_names();
    match choice {
        ToolChoiceView::Auto => {
            lemma_one(seq![("type"@, JsonTree::Text("auto"@))]);
            assert(under(seq![("type"@, JsonTree::Text("auto"@))], "type"@) is Some);
        },
        ToolChoiceView::Required => {
            lemma_one(seq![("type"@, JsonTree::Text("any"@))]);
            assert(under(seq![("type"@, JsonTree::Text("any"@))], "type"@) is Some);
        },
        ToolChoiceView::Specific(name) => {
            let fields = seq![("type"@, JsonTree::Text("tool"@)), ("name"@, JsonTree::Text(name))];
            lemma_two(fields);
            assert(under(fields, "type"@) is Some && under(fields, "name"@) is Some);
        },
        ToolChoiceView::Never => {},
    }
}

} // verus!
