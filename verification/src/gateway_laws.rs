//! What the proxy does with a request and with what comes back, in the terms of
//! the client and of the upstream.
use crate::config::{router_error_text, ModelEntryView, RouteView, RouterError};
use crate::image_detect::holds_picture;
use crate::json::{object_of, JsonTree};
use crate::models::ApiType;
use crate::router::RouterView;
use crate::selector::{ids_of, place_of};
use crate::server::{
    is_protected, joined_url, no_other_route, no_route, ollama_answer, ollama_chat_tree,
    ollama_model_tree, openai_model_tree, opened, passes_on, readied, shown, shows_key, step_to,
    takes_pictures, with_vision, without_candidate, ErrorReplyView, ForwardView, OutgoingView,
    StepView,
};
use crate::text::{decimal_text, is_slash, trimmed, trimmed_end, trimmed_start};
use crate::wire_laws::lemma_at;
use vstd::prelude::*;

verus! {

/// Whether a reply is this refusal, which names no time to wait.
pub open spec fn is_refusal(reply: ErrorReplyView, status: u16, message: Seq<char>) -> bool {
    reply.status == status && reply.message == message && reply.retry_after_secs is None
}

/// A request is refused where it is no JSON or names no model; one that names the
/// default model may go to the models of the list, those that take pictures where
/// it holds one, and is refused where there are none; and any other goes to the
/// model that it names. The body is kept as it came.
pub proof fn requests_go_where_they_ask(
    default_model: Seq<char>,
    pool: Seq<Seq<char>>,
    catalog: Map<Seq<char>, ModelEntryView>,
    body: Result<JsonTree, Seq<char>>,
    api: ApiType,
    model: Seq<char>,
)
    ensures
        match (body, opened(default_model, pool, catalog, body, api)) {
            (Err(message), r) => r is Err && is_refusal(
                r->Err_0,
                400,
                "invalid JSON: "@ + message,
            ),
            (Ok(tree), r) => {
                &&& !(tree.field("model"@) matches Some(JsonTree::Text(_))) ==> r is Err
                    && is_refusal(r->Err_0, 400, "missing 'model' field"@)
                &&& tree.field("model"@) == Some(JsonTree::Text(model)) && model != default_model
                    ==> {
                    &&& r is Ok
                    &&& r->Ok_0.model == model
                    &&& !r->Ok_0.by_default
                    &&& r->Ok_0.expected_api == api
                    &&& r->Ok_0.body == tree
                    &&& r->Ok_0.candidates.len() == 0
                }
                &&& tree.field("model"@) == Some(JsonTree::Text(model)) && model == default_model
                    ==> {
                    &&& r is Err <==> holds_picture(tree) && forall|i: int|
                        0 <= i < pool.len() ==> !takes_pictures(catalog, #[trigger] pool[i])
                    &&& r is Err ==> is_refusal(
                        r->Err_0,
                        503,
                        "no vision-capable model available in priority pool"@,
                    )
                    &&& r is Ok ==> {
                        &&& r->Ok_0.model == model
                        &&& r->Ok_0.by_default
                        &&& r->Ok_0.expected_api == api
                        &&& r->Ok_0.body == tree
                        &&& !holds_picture(tree) ==> r->Ok_0.candidates == pool
                    }
                }
            },
        },
{
    if body is Ok && holds_picture(body->Ok_0) {
        lemma_some_take_pictures(pool, catalog);
    }
}

proof fn lemma_some_take_pictures(
    pool: Seq<Seq<char>>,
    catalog: Map<Seq<char>, ModelEntryView>,
)
    ensures
        pool.filter(with_vision(catalog)).len() == 0 <==> forall|i: int|
            0 <= i < pool.len() ==> !takes_pictures(catalog, #[trigger] pool[i]),
    decreases pool.len(),
{
    reveal(Seq::filter);
    if pool.len() > 0 {
        let front = pool.drop_last();
        lemma_some_take_pictures(front, catalog);
        assert(pool[pool.len() - 1] == pool.last());
        if pool.filter(with_vision(catalog)).len() == 0 {
            assert forall|i: int| 0 <= i < pool.len() implies !takes_pictures(
                catalog,
                #[trigger] pool[i],
            ) by {
                if i < front.len() {
                    assert(front[i] == pool[i]);
                }
            }
        } else if forall|i: int|
            0 <= i < pool.len() ==> !takes_pictures(catalog, #[trigger] pool[i]) {
            assert forall|i: int| 0 <= i < front.len() implies !takes_pictures(
                catalog,
                #[trigger] front[i],
            ) by {
                assert(front[i] == pool[i]);
            }
        }
    }
}

/// Slashes, so many of them.
pub open spec fn slashes(n: nat) -> Seq<char> {
    Seq::new(n, |i: int| '/')
}

/// An address is joined from a base and an ending with one slash between them,
/// however many the two have there.
pub proof fn addresses_are_joined_by_one_slash(
    base: Seq<char>,
    n: nat,
    m: nat,
    ending: Seq<char>,
)
    requires
        base.len() > 0 ==> base.last() != '/',
        ending.len() > 0 ==> ending.first() != '/',
    ensures
        joined_url(base + slashes(n), slashes(m) + ending) == base + "/"@ + ending,
{
    lemma_slashes_end(base, n);
    lemma_slashes_start(ending, m);
}

proof fn lemma_slashes_end(base: Seq<char>, n: nat)
    requires
        base.len() > 0 ==> base.last() != '/',
    ensures
        trimmed_end(base + slashes(n), is_slash()) == base,
    decreases n,
{
    let s = base + slashes(n);
    if n == 0 {
        assert(s =~= base);
    } else {
        assert(s.drop_last() =~= base + slashes((n - 1) as nat));
        lemma_slashes_end(base, (n - 1) as nat);
    }
}

proof fn lemma_slashes_start(ending: Seq<char>, m: nat)
    requires
        ending.len() > 0 ==> ending.first() != '/',
    ensures
        trimmed_start(slashes(m) + ending, is_slash()) == ending,
    decreases m,
{
    let s = slashes(m) + ending;
    if m == 0 {
        assert(s =~= ending);
    } else {
        assert(s.drop_first() =~= slashes((m - 1) as nat) + ending);
        lemma_slashes_start(ending, (m - 1) as nat);
    }
}

/// A request goes to the address of its model for the API that it is for, with
/// the key of the model the way that API takes it, and as a stream only where the
/// body asks for one. A model that is served through the other API is refused.
pub proof fn request_is_sent_to_its_model(
    forward: ForwardView,
    route: RouteView,
    base: Seq<char>,
    n: nat,
)
    requires
        base.len() > 0 ==> base.last() != '/',
        route.base_url == base + slashes(n),
    ensures
        route.api == forward.expected_api ==> match step_to(forward, route) {
            StepView::Send(out) => {
                &&& out.model_id == route.model_id
                &&& route.api == ApiType::OpenAiCompletions ==> {
                    &&& out.url == base + "/chat/completions"@
                    &&& out.headers == seq![("authorization"@, "Bearer "@ + route.api_key)]
                }
                &&& route.api == ApiType::AnthropicMessages ==> {
                    &&& out.url == base + "/v1/messages"@
                    &&& out.headers == seq![
                        ("x-api-key"@, route.api_key),
                        ("anthropic-version"@, "2023-06-01"@),
                    ]
                }
                &&& out.stream == (forward.body.field("stream"@) == Some(JsonTree::Bool(true)))
            },
            StepView::Reply(_) => false,
        },
        route.api != forward.expected_api ==> readied(forward, route) == forward && match step_to(
            forward,
            route,
        ) {
            StepView::Reply(reply) => {
                &&& route.api == ApiType::OpenAiCompletions ==> is_refusal(
                    reply,
                    400,
                    "model '"@ + route.model_id + "' is served via "@ + "OpenAiCompletions"@
                        + ", not the requested API shape"@,
                )
                &&& route.api == ApiType::AnthropicMessages ==> is_refusal(
                    reply,
                    400,
                    "model '"@ + route.model_id + "' is served via "@ + "AnthropicMessages"@
                        + ", not the requested API shape"@,
                )
            },
            StepView::Send(_) => false,
        },
{
    reveal_strlit("/");
    reveal_strlit("/chat/completions");
    reveal_strlit("/v1/messages");
    reveal_strlit("model");
    reveal_strlit("stream");
    let chat = "/chat/completions"@;
    let messages = "/v1/messages"@;
    addresses_are_joined_by_one_slash(base, n, 1, chat.skip(1));
    addresses_are_joined_by_one_slash(base, n, 1, messages.skip(1));
    assert(slashes(1) + chat.skip(1) =~= chat);
    assert(slashes(1) + messages.skip(1) =~= messages);
    assert(base + "/"@ + chat.skip(1) =~= base + chat);
    assert(base + "/"@ + messages.skip(1) =~= base + messages);
    assert("model"@.len() != "stream"@.len());
}

/// Where no model can serve, the client is told: to come back after the time that
/// the router names where all are cooling down, that the model is not served
/// where it asked for one that is not, and what went wrong otherwise.
pub proof fn missing_routes_are_told(forward: ForwardView, status: u16, e: RouterError)
    ensures
        match e {
            RouterError::AllUnavailable { retry_after_secs } => {
                &&& no_route(forward, e) == (ErrorReplyView {
                    status: 503,
                    message: "all upstream models in cooldown"@,
                    retry_after_secs: Some(retry_after_secs),
                })
                &&& no_other_route(status, e) == (ErrorReplyView {
                    status: 503,
                    message: "all upstream models exhausted after quota error"@,
                    retry_after_secs: Some(retry_after_secs),
                })
            },
            _ => {
                &&& e is UnknownModel && !forward.by_default ==> is_refusal(
                    no_route(forward, e),
                    404,
                    "model '"@ + forward.model + "' not served"@,
                )
                &&& !(e is UnknownModel) || forward.by_default ==> is_refusal(
                    no_route(forward, e),
                    500,
                    "router: "@ + router_error_text(e),
                )
                &&& is_refusal(
                    no_other_route(status, e),
                    500,
                    "router retry after "@ + decimal_text(status as nat) + ": "@
                        + router_error_text(e),
                )
            },
        },
{
}

/// A request goes on to another model only where the catalog lists the status for
/// the model that answered, the request left the choice of the model to the
/// proxy, and its answer is not a stream. That model is then asked no more, and
/// all the others stay.
pub proof fn request_goes_on_only_where_it_may(
    forward: ForwardView,
    router: RouterView,
    sent: OutgoingView,
    status: u16,
    id: Seq<char>,
)
    ensures
        passes_on(forward, router, sent, status) <==> {
            &&& router.catalog.contains_key(sent.model_id)
            &&& exists|i: int|
                0 <= i < router.catalog[sent.model_id].retry_on.len()
                    && #[trigger] router.catalog[sent.model_id].retry_on[i] == status
            &&& forward.by_default
            &&& !sent.stream
        },
        without_candidate(forward, sent.model_id).candidates.contains(id) <==> (
        forward.candidates.contains(id) && id != sent.model_id),
        without_candidate(forward, sent.model_id).body == forward.body,
        without_candidate(forward, sent.model_id).model == forward.model,
        without_candidate(forward, sent.model_id).by_default == forward.by_default,
        without_candidate(forward, sent.model_id).expected_api == forward.expected_api,
{
    broadcast use Seq::lemma_filter_contains_rev;

    let others = crate::server::other_than(sent.model_id);
    if without_candidate(forward, sent.model_id).candidates.contains(id) {
        forward.candidates.filter_lemma(others);
    }
    if forward.candidates.contains(id) && id != sent.model_id {
        assert(others(id));
    }
}

/// A key is asked for on the three paths that reach a model. A client shows it
/// behind the word `Bearer` and a blank, with white space round it or none.
pub proof fn keys_are_shown_behind_bearer(
    path: Seq<char>,
    header: Seq<char>,
    token: Seq<char>,
    key: Seq<char>,
)
    ensures
        is_protected("/v1/chat/completions"@),
        is_protected("/v1/messages"@),
        is_protected("/api/chat"@),
        path != "/v1/chat/completions"@ && path != "/v1/messages"@ && path != "/api/chat"@
            ==> !is_protected(path),
        !shows_key(None, key),
        shows_key(Some("Bearer "@ + token), key) <==> trimmed(token) == key,
        shows_key(Some(header), key) ==> header.len() >= 7 && header.take(7) == "Bearer "@
            && trimmed(header.skip(7)) == key,
{
    reveal_strlit("Bearer ");
    let whole = "Bearer "@ + token;
    assert("Bearer "@.is_prefix_of(whole)) by {
        assert(whole.subrange(0, 7) =~= "Bearer "@);
    }
    assert(whole.skip(7) =~= token);
    if shows_key(Some(header), key) {
        assert(header.take(7) =~= "Bearer "@);
    }
}

/// The list of models tells of each its id, who makes it, how it is reached and
/// where.
pub proof fn models_are_listed_field_by_field(entry: ModelEntryView)
    ensures
        ({
            let tree = openai_model_tree(entry);
            &&& tree.field("id"@) == Some(JsonTree::Text(entry.id))
            &&& tree.field("object"@) == Some(JsonTree::Text("model"@))
            &&& tree.field("owned_by"@) == Some(JsonTree::Text(entry.provider))
            &&& tree.field("vendor"@) == Some(JsonTree::Text(entry.provider))
            &&& entry.api == ApiType::OpenAiCompletions ==> tree.field("protocol"@) == Some(
                JsonTree::Text("openai"@),
            )
            &&& entry.api == ApiType::AnthropicMessages ==> tree.field("protocol"@) == Some(
                JsonTree::Text("anthropic"@),
            )
            &&& tree.field("base_url"@) == Some(JsonTree::Text(entry.base_url))
        }),
{
    reveal_strlit("id");
    assert("id"@.len() == 2);
    reveal_strlit("object");
    assert("object"@.len() == 6);
    reveal_strlit("owned_by");
    assert("owned_by"@.len() == 8);
    reveal_strlit("vendor");
    assert("vendor"@.len() == 6);
    reveal_strlit("protocol");
    assert("protocol"@.len() == 8);
    reveal_strlit("base_url");
    assert("base_url"@.len() == 8);
    assert("object"@[0] != "vendor"@[0]);
    assert("owned_by"@[0] != "protocol"@[0]);
    assert("owned_by"@[0] != "base_url"@[0]);
    assert("protocol"@[0] != "base_url"@[0]);
    let fields = seq![
        ("id"@, JsonTree::Text(entry.id)),
        ("object"@, JsonTree::Text("model"@)),
        ("owned_by"@, JsonTree::Text(entry.provider)),
        ("vendor"@, JsonTree::Text(entry.provider)),
        ("protocol"@, JsonTree::Text(crate::server::protocol_name(entry.api))),
        ("base_url"@, JsonTree::Text(entry.base_url)),
    ];
    assert(openai_model_tree(entry) == JsonTree::Object(object_of(fields)));
    lemma_at(fields, 0);
    lemma_at(fields, 1);
    lemma_at(fields, 2);
    lemma_at(fields, 3);
    lemma_at(fields, 4);
    lemma_at(fields, 5);
}

/// The list of models for Ollama tells of each its id, twice, who makes it and
/// how it is reached. It has no size and no date.
pub proof fn ollama_models_are_listed_field_by_field(entry: ModelEntryView)
    ensures
        ({
            let tree = ollama_model_tree(entry);
            &&& tree.field("name"@) == Some(JsonTree::Text(entry.id))
            &&& tree.field("model"@) == Some(JsonTree::Text(entry.id))
            &&& tree.field("modified_at"@) == Some(JsonTree::Text("1970-01-01T00:00:00Z"@))
            &&& tree.field("size"@) == Some(JsonTree::Number(decimal_text(0)))
            &&& tree.field("details"@) is Some
            &&& tree.field("details"@)->0.field("family"@) == Some(JsonTree::Text(entry.provider))
            &&& tree.field("details"@)->0.field("parameter_size"@) == Some(JsonTree::Text(""@))
            &&& tree.field("vendor"@) == Some(JsonTree::Text(entry.provider))
            &&& entry.api == ApiType::OpenAiCompletions ==> tree.field("protocol"@) == Some(
                JsonTree::Text("openai"@),
            )
            &&& entry.api == ApiType::AnthropicMessages ==> tree.field("protocol"@) == Some(
                JsonTree::Text("anthropic"@),
            )
        }),
{
    reveal_strlit("name");
    assert("name"@.len() == 4);
    reveal_strlit("model");
    assert("model"@.len() == 5);
    reveal_strlit("modified_at");
    assert("modified_at"@.len() == 11);
    reveal_strlit("size");
    assert("size"@.len() == 4);
    reveal_strlit("details");
    assert("details"@.len() == 7);
    reveal_strlit("vendor");
    assert("vendor"@.len() == 6);
    reveal_strlit("protocol");
    assert("protocol"@.len() == 8);
    reveal_strlit("family");
    assert("family"@.len() == 6);
    reveal_strlit("parameter_size");
    assert("parameter_size"@.len() == 14);
    assert("name"@[0] != "size"@[0]);
    let inner = seq![
        ("family"@, JsonTree::Text(entry.provider)),
        ("parameter_size"@, JsonTree::Text(""@)),
    ];
    let fields = seq![
        ("name"@, JsonTree::Text(entry.id)),
        ("model"@, JsonTree::Text(entry.id)),
        ("modified_at"@, JsonTree::Text("1970-01-01T00:00:00Z"@)),
        ("size"@, JsonTree::Number(decimal_text(0))),
        ("details"@, JsonTree::Object(object_of(inner))),
        ("vendor"@, JsonTree::Text(entry.provider)),
        ("protocol"@, JsonTree::Text(crate::server::protocol_name(entry.api))),
    ];
    assert(ollama_model_tree(entry) == JsonTree::Object(object_of(fields)));
    lemma_at(inner, 0);
    lemma_at(inner, 1);
    lemma_at(fields, 0);
    lemma_at(fields, 1);
    lemma_at(fields, 2);
    lemma_at(fields, 3);
    lemma_at(fields, 4);
    lemma_at(fields, 5);
    lemma_at(fields, 6);
}

/// A model is shown where the request names one of the pool: the first of that
/// id. Any other request is refused, and told why.
pub proof fn models_are_shown_by_name(
    pool: Seq<ModelEntryView>,
    tree: JsonTree,
    name: Seq<char>,
    message: Seq<char>,
)
    ensures
        shown(pool, Err(message)) is Err && is_refusal(
            shown(pool, Err(message))->Err_0,
            400,
            "invalid JSON: "@ + message,
        ),
        !(tree.field("name"@) matches Some(JsonTree::Text(_))) ==> shown(pool, Ok(tree)) is Err
            && is_refusal(shown(pool, Ok(tree))->Err_0, 400, "missing 'name' field"@),
        tree.field("name"@) == Some(JsonTree::Text(name)) && (forall|i: int|
            0 <= i < pool.len() ==> (#[trigger] pool[i]).id != name) ==> shown(pool, Ok(tree)) is Err
            && is_refusal(
            shown(pool, Ok(tree))->Err_0,
            404,
            "model '"@ + name + "' not served"@,
        ),
        forall|i: int|
            tree.field("name"@) == Some(JsonTree::Text(name)) && #[trigger] is_first_of(
                pool,
                name,
                i,
            ) ==> shown(pool, Ok(tree)) == Ok::<JsonTree, ErrorReplyView>(
                ollama_model_tree(pool[i]),
            ),
{
    let ids = ids_of(pool);
    crate::selector::lemma_place_of(ids, name);
    if forall|i: int| 0 <= i < pool.len() ==> (#[trigger] pool[i]).id != name {
        if let Some(k) = place_of(ids, name) {
            assert(pool[k].id == ids[k]);
        }
    }
    assert forall|i: int|
        tree.field("name"@) == Some(JsonTree::Text(name)) && #[trigger] is_first_of(
            pool,
            name,
            i,
        ) implies shown(pool, Ok(tree)) == Ok::<JsonTree, ErrorReplyView>(
        ollama_model_tree(pool[i]),
    ) by {
        assert(ids[i] == name);
        let k = place_of(ids, name)->0;
        assert(ids[k] == pool[k].id);
        if k < i {
            assert(pool[k].id != name);
        }
    }
}

/// Whether the first entry of this id stands at this place.
pub open spec fn is_first_of(pool: Seq<ModelEntryView>, name: Seq<char>, i: int) -> bool {
    &&& 0 <= i < pool.len()
    &&& pool[i].id == name
    &&& forall|k: int| 0 <= k < i ==> (#[trigger] pool[k]).id != name
}

/// A chat for Ollama is made of the completion: its model, the text and the
/// reason of its first choice, where it has them, and nothing, an empty text and
/// `stop` where it has not. A reply that is no JSON is an error of the upstream.
pub proof fn ollama_chats_come_from_completions(
    completion: JsonTree,
    choices: Seq<JsonTree>,
    message: JsonTree,
    text: Seq<char>,
    reason: Seq<char>,
    model: Seq<char>,
    problem: Seq<char>,
)
    ensures
        ({
            let tree = ollama_chat_tree(completion);
            let answer = tree.field("message"@)->0;
            &&& tree.field("created_at"@) == Some(JsonTree::Text("1970-01-01T00:00:00Z"@))
            &&& tree.field("done"@) == Some(JsonTree::Bool(true))
            &&& tree.field("message"@) is Some
            &&& answer.field("role"@) == Some(JsonTree::Text("assistant"@))
            &&& completion.field("model"@) == Some(JsonTree::Text(model)) ==> tree.field("model"@)
                == Some(JsonTree::Text(model))
            &&& !(completion.field("model"@) matches Some(JsonTree::Text(_))) ==> tree.field(
                "model"@,
            ) == Some(JsonTree::Text(""@))
            &&& completion.field("choices"@) == Some(JsonTree::List(choices)) && choices.len() > 0
                ==> {
                &&& choices[0].field("message"@) == Some(message) && message.field("content"@)
                    == Some(JsonTree::Text(text)) ==> answer.field("content"@) == Some(
                    JsonTree::Text(text),
                )
                &&& choices[0].field("message"@) == Some(message) && !(message.field("content"@)
                    matches Some(JsonTree::Text(_))) ==> answer.field("content"@) == Some(
                    JsonTree::Text(""@),
                )
                &&& choices[0].field("message"@) is None ==> answer.field("content"@) == Some(
                    JsonTree::Text(""@),
                )
                &&& choices[0].field("finish_reason"@) == Some(JsonTree::Text(reason))
                    ==> tree.field("done_reason"@) == Some(JsonTree::Text(reason))
                &&& !(choices[0].field("finish_reason"@) matches Some(JsonTree::Text(_)))
                    ==> tree.field("done_reason"@) == Some(JsonTree::Text("stop"@))
            }
            &&& completion.field("choices"@) is None || completion.field("choices"@) == Some(
                JsonTree::List(Seq::empty()),
            ) ==> {
                &&& answer.field("content"@) == Some(JsonTree::Text(""@))
                &&& tree.field("done_reason"@) == Some(JsonTree::Text("stop"@))
            }
        }),
        ollama_answer(Ok(completion)) == Ok::<JsonTree, ErrorReplyView>(
            ollama_chat_tree(completion),
        ),
        ollama_answer(Err(problem)) is Err && is_refusal(
            ollama_answer(Err(problem))->Err_0,
            502,
            "upstream JSON parse: "@ + problem,
        ),
{
    reveal_strlit("model");
    assert("model"@.len() == 5);
    reveal_strlit("created_at");
    assert("created_at"@.len() == 10);
    reveal_strlit("message");
    assert("message"@.len() == 7);
    reveal_strlit("done");
    assert("done"@.len() == 4);
    reveal_strlit("done_reason");
    assert("done_reason"@.len() == 11);
    reveal_strlit("role");
    assert("role"@.len() == 4);
    reveal_strlit("content");
    assert("content"@.len() == 7);
    let inner = seq![
        ("role"@, JsonTree::Text("assistant"@)),
        ("content"@, JsonTree::Text(crate::server::choice_content(completion))),
    ];
    let fields = seq![
        ("model"@, JsonTree::Text(crate::server::completion_model(completion))),
        ("created_at"@, JsonTree::Text("1970-01-01T00:00:00Z"@)),
        ("message"@, JsonTree::Object(object_of(inner))),
        ("done"@, JsonTree::Bool(true)),
        ("done_reason"@, JsonTree::Text(crate::server::choice_reason(completion))),
    ];
    assert(ollama_chat_tree(completion) == JsonTree::Object(object_of(fields)));
    lemma_at(inner, 0);
    lemma_at(inner, 1);
    lemma_at(fields, 0);
    lemma_at(fields, 1);
    lemma_at(fields, 2);
    lemma_at(fields, 3);
    lemma_at(fields, 4);
}

/// A picture is one anywhere in a body: an object that lists pictures, or whose
/// type is one of the three words for a picture.
pub proof fn pictures_are_found_wherever_they_are(
    object: Map<Seq<char>, JsonTree>,
    items: Seq<JsonTree>,
    key: Seq<char>,
    i: int,
)
    ensures
        object.contains_key("type"@) && (object["type"@] == JsonTree::Text("image"@)
            || object["type"@] == JsonTree::Text("image_url"@) || object["type"@]
            == JsonTree::Text("input_image"@)) ==> holds_picture(JsonTree::Object(object)),
        object.contains_key("images"@) && object["images"@] == JsonTree::List(items)
            && items.len() > 0 ==> holds_picture(JsonTree::Object(object)),
        object.contains_key(key) && holds_picture(object[key]) ==> holds_picture(
            JsonTree::Object(object),
        ),
        0 <= i < items.len() && holds_picture(items[i]) ==> holds_picture(JsonTree::List(items)),
        holds_picture(JsonTree::List(items)) ==> exists|k: int|
            0 <= k < items.len() && holds_picture(#[trigger] items[k]),
        !object.contains_key("type"@) && !object.contains_key("images"@) && (forall|k: Seq<char>|
            #[trigger] object.contains_key(k) ==> !holds_picture(object[k])) ==> !holds_picture(
            JsonTree::Object(object),
        ),
        forall|text: Seq<char>| !#[trigger] holds_picture(JsonTree::Text(text)),
        forall|text: Seq<char>| !#[trigger] holds_picture(JsonTree::Number(text)),
        !holds_picture(JsonTree::Null),
        !holds_picture(JsonTree::Bool(true)),
        !holds_picture(JsonTree::Bool(false)),
{
    reveal_with_fuel(holds_picture, 2);
    let list = JsonTree::List(items);
    if 0 <= i < items.len() && holds_picture(items[i]) {
        assert(list->List_0[i] == items[i]);
        assert(holds_picture(list));
    }
}

/// A model takes pictures where the catalog has an entry for it that says so.
pub proof fn entries_say_who_takes_pictures(
    catalog: Map<Seq<char>, ModelEntryView>,
    id: Seq<char>,
)
    ensures
        !catalog.contains_key(id) ==> !takes_pictures(catalog, id),
        catalog.contains_key(id) ==> (takes_pictures(catalog, id)
            <==> catalog[id].supports_vision),
{
}

} // verus!
