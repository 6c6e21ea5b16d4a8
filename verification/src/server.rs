//! What the proxy answers, and where it sends a request.
//!
//! A request names a model. The name of the default model stands for a whole
//! list of models, of which the best one that is available serves the request
//! without the client learning which. Any other name stands for itself.
use crate::catalog::ModelCatalog;
use crate::clock::{SystemClock, Timestamp};
use crate::config::{
    router_error_text, ModelEntry, ModelEntryView, Route, RouteView, RouterError,
};
use crate::image_detect::{body_contains_image, holds_picture};
use crate::json::{
    boolean, field_text, field_trees, get_field, get_text, list, number, object, object_of,
    outcome_of, parse, parse_bytes, parsed, parsed_bytes, set_field, string, tree_of, trees_of,
    JsonTree,
};
use crate::models::ApiType;
use crate::router::{
    candidate_selected, gives_way, recordable, recorded, selected, Router, RouterView,
};
use crate::selector::{entries_of, ids_of, place_of, position};
use crate::text::{
    concat, copy_texts, decimal, decimal_text, is_slash, join, joined, number_of, opt_str, parse_number, same,
    strip_prefix, texts, trim, trim_end_slashes, trim_start_slashes, trimmed, trimmed_end,
    trimmed_start, without_prefix,
};
use crate::wire::text_tree;
use vstd::prelude::*;

verus! {

/// Largest request body that the proxy takes.
pub const MAX_BODY_BYTES: usize = 10_485_760;

/// Whether a path asks for the key of the proxy, where there is one.
pub open spec fn is_protected(path: Seq<char>) -> bool {
    path == "/v1/chat/completions"@ || path == "/v1/messages"@ || path == "/api/chat"@
}

/// Whether a header shows the key.
pub open spec fn shows_key(header: Option<Seq<char>>, key: Seq<char>) -> bool {
    match header {
        Some(text) => match without_prefix(text, "Bearer "@) {
            Some(token) => trimmed(token) == key,
            None => false,
        },
        None => false,
    }
}

/// Whether a request may pass: it must show the key where the path is protected
/// and the proxy has one.
pub fn authorized(path: &str, api_key: Option<&str>, header: Option<&str>) -> (b: bool)
    ensures
        b == (!is_protected(path@) || match api_key {
            Some(key) => shows_key(opt_str(header), key@),
            None => true,
        }),
{
    let protected = same(path, "/v1/chat/completions") || same(path, "/v1/messages") || same(
        path,
        "/api/chat",
    );
    if !protected {
        return true;
    }
    match api_key {
        Some(key) => match header {
            Some(text) => match strip_prefix(text, "Bearer ") {
                Some(token) => same(trim(token), key),
                None => false,
            },
            None => false,
        },
        None => true,
    }
}

/// An answer that the proxy gives by itself, instead of an upstream.
#[derive(Debug)]
pub struct ErrorReply {
    pub status: u16,
    pub message: String,
    pub retry_after_secs: Option<u64>,
}

/// Such an answer as a value.
pub struct ErrorReplyView {
    pub status: u16,
    pub message: Seq<char>,
    pub retry_after_secs: Option<u64>,
}

impl View for ErrorReply {
    type V = ErrorReplyView;

    open spec fn view(&self) -> ErrorReplyView {
        ErrorReplyView {
            status: self.status,
            message: self.message@,
            retry_after_secs: self.retry_after_secs,
        }
    }
}

/// An answer with this status and these words.
pub open spec fn refusal(status: u16, message: Seq<char>) -> ErrorReplyView {
    ErrorReplyView { status, message, retry_after_secs: None }
}

/// An answer that says when to come back.
pub open spec fn busy(message: Seq<char>, retry_after_secs: u64) -> ErrorReplyView {
    ErrorReplyView { status: 503, message, retry_after_secs: Some(retry_after_secs) }
}

impl ErrorReply {
    fn new(status: u16, message: String) -> (reply: ErrorReply)
        ensures
            reply@ == refusal(status, message@),
    {
        ErrorReply { status, message, retry_after_secs: None }
    }

    /// The body of the answer.
    pub fn body(&self) -> (body: serde_json::Value)
        ensures
            tree_of(body) == JsonTree::Object(
                object_of(seq![("error"@, JsonTree::Text(self@.message))]),
            ),
    {
        error_body(self.message.as_str())
    }
}

/// The body of an answer that says what is wrong.
pub fn error_body(message: &str) -> (body: serde_json::Value)
    ensures
        tree_of(body) == JsonTree::Object(object_of(seq![("error"@, JsonTree::Text(message@))])),
{
    let fields = vec![("error".to_owned(), string(message.to_owned()))];
    assert(field_trees(fields@) =~= seq![("error"@, JsonTree::Text(message@))]);
    object(fields)
}

/// The answer where the upstream cannot be reached.
pub fn network_error(message: &str) -> (reply: ErrorReply)
    ensures
        reply@ == refusal(502, "upstream network error: "@ + message@),
{
    ErrorReply::new(502, concat("upstream network error: ", message))
}

/// The answer where the upstream's body cannot be read.
pub fn body_read_error(message: &str) -> (reply: ErrorReply)
    ensures
        reply@ == refusal(502, "upstream body read: "@ + message@),
{
    ErrorReply::new(502, concat("upstream body read: ", message))
}

/// The seconds that a `Retry-After` header asks for, if it holds a number.
pub fn parse_retry_after_header(header: Option<&str>) -> (secs: Option<u64>)
    ensures
        match header {
            Some(text) => match secs {
                Some(n) => number_of(text@, u64::MAX as nat) == Some(n as nat),
                None => number_of(text@, u64::MAX as nat) is None,
            },
            None => secs is None,
        },
{
    match header {
        Some(text) => parse_number(text, u64::MAX),
        None => None,
    }
}

/// The short name of an API.
pub open spec fn protocol_name(api: ApiType) -> Seq<char> {
    match api {
        ApiType::OpenAiCompletions => "openai"@,
        ApiType::AnthropicMessages => "anthropic"@,
    }
}

/// The short name of an API.
pub fn api_to_protocol_str(api: ApiType) -> (name: &'static str)
    ensures
        name@ == protocol_name(api),
{
    match api {
        ApiType::OpenAiCompletions => "openai",
        ApiType::AnthropicMessages => "anthropic",
    }
}

/// The full name of an API.
pub open spec fn api_name(api: ApiType) -> Seq<char> {
    match api {
        ApiType::OpenAiCompletions => "OpenAiCompletions"@,
        ApiType::AnthropicMessages => "AnthropicMessages"@,
    }
}

fn api_label(api: ApiType) -> (name: &'static str)
    ensures
        name@ == api_name(api),
{
    match api {
        ApiType::OpenAiCompletions => "OpenAiCompletions",
        ApiType::AnthropicMessages => "AnthropicMessages",
    }
}

/// The path of the chat endpoint of an API, behind the base URL.
pub open spec fn url_suffix(api: ApiType) -> Seq<char> {
    match api {
        ApiType::OpenAiCompletions => "/chat/completions"@,
        ApiType::AnthropicMessages => "/v1/messages"@,
    }
}

fn suffix_of(api: ApiType) -> (suffix: &'static str)
    ensures
        suffix@ == url_suffix(api),
{
    match api {
        ApiType::OpenAiCompletions => "/chat/completions",
        ApiType::AnthropicMessages => "/v1/messages",
    }
}

/// A base URL and a path with one slash between them.
pub open spec fn joined_url(base_url: Seq<char>, suffix: Seq<char>) -> Seq<char> {
    trimmed_end(base_url, is_slash()) + "/"@ + trimmed_start(suffix, is_slash())
}

/// A base URL and a path with one slash between them.
pub fn join_url(base_url: &str, suffix: &str) -> (url: String)
    ensures
        url@ == joined_url(base_url@, suffix@),
{
    let mut url = concat(trim_end_slashes(base_url), "/");
    url.append(trim_start_slashes(suffix));
    url
}

/// A header by name and value.
pub open spec fn header(name: Seq<char>, value: Seq<char>) -> (Seq<char>, Seq<char>) {
    (name, value)
}

/// The headers that show the key of an upstream.
pub open spec fn auth_headers(api: ApiType, token: Seq<char>) -> Seq<(Seq<char>, Seq<char>)> {
    match api {
        ApiType::OpenAiCompletions => seq![header("authorization"@, "Bearer "@ + token)],
        ApiType::AnthropicMessages => seq![
            header("x-api-key"@, token),
            header("anthropic-version"@, "2023-06-01"@),
        ],
    }
}

/// Headers as values.
pub open spec fn headers_of(headers: Seq<(String, String)>) -> Seq<(Seq<char>, Seq<char>)> {
    headers.map_values(|h: (String, String)| (h.0@, h.1@))
}

/// The headers that show the key of an upstream.
pub(crate) fn key_headers(api: ApiType, token: &str) -> (headers: Vec<(String, String)>)
    ensures
        headers_of(headers@) == auth_headers(api, token@),
{
    let headers = match api {
        ApiType::OpenAiCompletions => vec![
            ("authorization".to_owned(), concat("Bearer ", token)),
        ],
        ApiType::AnthropicMessages => vec![
            ("x-api-key".to_owned(), token.to_owned()),
            ("anthropic-version".to_owned(), "2023-06-01".to_owned()),
        ],
    };
    assert(headers_of(headers@) =~= auth_headers(api, token@));
    headers
}

/// A request to an upstream. Its body is the one of the forward in hand.
#[derive(Debug)]
pub struct Outgoing {
    pub model_id: String,
    pub url: String,
    pub headers: Vec<(String, String)>,
    pub stream: bool,
}

/// Such a request as a value.
pub struct OutgoingView {
    pub model_id: Seq<char>,
    pub url: Seq<char>,
    pub headers: Seq<(Seq<char>, Seq<char>)>,
    pub stream: bool,
}

impl View for Outgoing {
    type V = OutgoingView;

    open spec fn view(&self) -> OutgoingView {
        OutgoingView {
            model_id: self.model_id@,
            url: self.url@,
            headers: headers_of(self.headers@),
            stream: self.stream,
        }
    }
}

/// What to do next for a request.
#[derive(Debug)]
pub enum Step {
    /// Send this to the upstream, and hand back what comes of it.
    Send(Outgoing),
    /// Answer the client with this.
    Reply(ErrorReply),
}

/// What to do with an upstream's reply.
#[derive(Debug)]
pub enum Next {
    /// Hand the reply on to the client, with a `Retry-After` header where there
    /// is one to hand on.
    Pass { retry_after_secs: Option<u64> },
    /// Drop the reply and do this instead.
    Again(Step),
}

/// A step as a value.
pub enum StepView {
    Send(OutgoingView),
    Reply(ErrorReplyView),
}

impl View for Step {
    type V = StepView;

    open spec fn view(&self) -> StepView {
        match self {
            Step::Send(out) => StepView::Send(out@),
            Step::Reply(reply) => StepView::Reply(reply@),
        }
    }
}

/// A request on its way through the proxy.
#[derive(Debug)]
pub struct Forward {
    pub model: String,
    /// Whether the request names the default model.
    pub by_default: bool,
    pub expected_api: ApiType,
    /// The body to send.
    pub body: serde_json::Value,
    /// The models that may still serve a request for the default model.
    pub candidates: Vec<String>,
}

/// Such a request as a value.
pub struct ForwardView {
    pub model: Seq<char>,
    pub by_default: bool,
    pub expected_api: ApiType,
    pub body: JsonTree,
    pub candidates: Seq<Seq<char>>,
}

impl View for Forward {
    type V = ForwardView;

    open spec fn view(&self) -> ForwardView {
        ForwardView {
            model: self.model@,
            by_default: self.by_default,
            expected_api: self.expected_api,
            body: tree_of(self.body),
            candidates: texts(self.candidates@),
        }
    }
}

/// Whether the catalog has a model that takes pictures.
pub open spec fn takes_pictures(catalog: Map<Seq<char>, ModelEntryView>, id: Seq<char>) -> bool {
    catalog.contains_key(id) && catalog[id].supports_vision
}

/// The models that take pictures.
pub open spec fn with_vision(catalog: Map<Seq<char>, ModelEntryView>) -> spec_fn(Seq<char>) -> bool {
    |id: Seq<char>| takes_pictures(catalog, id)
}

/// The models other than this one.
pub open spec fn other_than(model_id: Seq<char>) -> spec_fn(Seq<char>) -> bool {
    |id: Seq<char>| id != model_id
}

/// The models of the list that may serve a body: all of them, or where it holds
/// a picture those that take pictures.
pub open spec fn fitting(
    pool: Seq<Seq<char>>,
    catalog: Map<Seq<char>, ModelEntryView>,
    body: JsonTree,
) -> Seq<Seq<char>> {
    if holds_picture(body) {
        pool.filter(with_vision(catalog))
    } else {
        pool
    }
}

/// What a request body, read as JSON, comes to.
pub open spec fn opened(
    default_model: Seq<char>,
    pool: Seq<Seq<char>>,
    catalog: Map<Seq<char>, ModelEntryView>,
    body: Result<JsonTree, Seq<char>>,
    expected_api: ApiType,
) -> Result<ForwardView, ErrorReplyView> {
    match body {
        Err(message) => Err(refusal(400, "invalid JSON: "@ + message)),
        Ok(body) => match field_text(body, "model"@) {
            None => Err(refusal(400, "missing 'model' field"@)),
            Some(model) => {
                let candidates = fitting(pool, catalog, body);
                if model != default_model {
                    Ok(
                        ForwardView {
                            model,
                            by_default: false,
                            expected_api,
                            body,
                            candidates: Seq::empty(),
                        },
                    )
                } else if holds_picture(body) && candidates.len() == 0 {
                    Err(refusal(503, "no vision-capable model available in priority pool"@))
                } else {
                    Ok(ForwardView { model, by_default: true, expected_api, body, candidates })
                }
            },
        },
    }
}

/// The outcome of opening a request as a value.
pub open spec fn forward_outcome(r: Result<Forward, ErrorReply>) -> Result<
    ForwardView,
    ErrorReplyView,
> {
    match r {
        Ok(forward) => Ok(forward@),
        Err(reply) => Err(reply@),
    }
}

/// The body with another model in it.
pub open spec fn with_model(body: JsonTree, model_id: Seq<char>) -> JsonTree {
    match body {
        JsonTree::Object(fields) => JsonTree::Object(
            fields.insert("model"@, JsonTree::Text(model_id)),
        ),
        other => other,
    }
}

/// Whether the body asks for a stream.
pub open spec fn wants_stream(body: JsonTree) -> bool {
    body.field("stream"@) == Some(JsonTree::Bool(true))
}

/// The body that goes to a route: the one for the default model names the model
/// that serves it.
pub open spec fn body_for(forward: ForwardView, route: RouteView) -> JsonTree {
    if forward.by_default {
        with_model(forward.body, route.model_id)
    } else {
        forward.body
    }
}

/// The step towards a route.
pub open spec fn step_to(forward: ForwardView, route: RouteView) -> StepView {
    if route.api != forward.expected_api {
        StepView::Reply(
            refusal(
                400,
                "model '"@ + route.model_id + "' is served via "@ + api_name(route.api)
                    + ", not the requested API shape"@,
            ),
        )
    } else {
        StepView::Send(
            OutgoingView {
                model_id: route.model_id,
                url: joined_url(route.base_url, url_suffix(forward.expected_api)),
                headers: auth_headers(forward.expected_api, route.api_key),
                stream: wants_stream(body_for(forward, route)),
            },
        )
    }
}

/// A request of which the body has been made ready for a route.
pub open spec fn readied(forward: ForwardView, route: RouteView) -> ForwardView {
    if route.api != forward.expected_api {
        forward
    } else {
        ForwardView { body: body_for(forward, route), ..forward }
    }
}

/// The answer where the router has no route.
pub open spec fn no_route(forward: ForwardView, e: RouterError) -> ErrorReplyView {
    match e {
        RouterError::AllUnavailable { retry_after_secs } => busy(
            "all upstream models in cooldown"@,
            retry_after_secs,
        ),
        RouterError::UnknownModel(_) if !forward.by_default => refusal(
            404,
            "model '"@ + forward.model + "' not served"@,
        ),
        e => refusal(500, "router: "@ + router_error_text(e)),
    }
}

/// The answer where the router has no other route after a reply with this
/// status.
pub open spec fn no_other_route(status: u16, e: RouterError) -> ErrorReplyView {
    match e {
        RouterError::AllUnavailable { retry_after_secs } => busy(
            "all upstream models exhausted after quota error"@,
            retry_after_secs,
        ),
        e => refusal(
            500,
            "router retry after "@ + decimal_text(status as nat) + ": "@ + router_error_text(e),
        ),
    }
}

/// What the router did to find a route for a request.
pub open spec fn routed(
    forward: ForwardView,
    before: RouterView,
    after: RouterView,
    now: Timestamp,
    r: Result<Route, RouterError>,
) -> bool {
    if forward.by_default {
        candidate_selected(before, after, forward.candidates, now, r)
    } else {
        selected(before, after, forward.model, now, r)
    }
}

/// A request without the model that has just refused it.
pub open spec fn without_candidate(forward: ForwardView, model_id: Seq<char>) -> ForwardView {
    ForwardView { candidates: forward.candidates.filter(other_than(model_id)), ..forward }
}

/// Whether a reply sends the request on to the next model: a whole one to a
/// request for the default model, with a code on which the model that gave it
/// gives way.
pub open spec fn passes_on(
    forward: ForwardView,
    router: RouterView,
    sent: OutgoingView,
    status: u16,
) -> bool {
    gives_way(router, sent.model_id, status) && forward.by_default && !sent.stream
}

/// The router has been asked for another route for `forward` after a reply with
/// this status, and `step` and `after` are what came of it.
pub open spec fn passed_on(
    forward: ForwardView,
    status: u16,
    before: RouterView,
    router: RouterView,
    now: Timestamp,
    step: StepView,
    after: ForwardView,
) -> bool {
    exists|r: Result<Route, RouterError>| #[trigger]
        routed(forward, before, router, now, r) && (match r {
            Ok(route) => step == step_to(forward, route@) && after == readied(forward, route@),
            Err(e) => step == StepView::Reply(no_other_route(status, e)) && after == forward,
        })
}

impl Forward {
    /// Opens a request whose body has been read as JSON, or has failed to be.
    pub fn from_parsed(
        default_model: &str,
        pool: &Vec<String>,
        catalog: &ModelCatalog,
        body: Result<serde_json::Value, String>,
        expected_api: ApiType,
    ) -> (r: Result<Forward, ErrorReply>)
        requires
            catalog.wf(),
        ensures
            forward_outcome(r) == opened(
                default_model@,
                texts(pool@),
                catalog@,
                outcome_of(body),
                expected_api,
            ),
    {
        let body = match body {
            Ok(body) => body,
            Err(message) => {
                return Err(ErrorReply::new(400, concat("invalid JSON: ", message.as_str())));
            },
        };
        let model = match get_text(&body, "model") {
            Some(model) => model.to_owned(),
            None => {
                return Err(ErrorReply::new(400, "missing 'model' field".to_owned()));
            },
        };
        if !same(model.as_str(), default_model) {
            let forward = Forward {
                model,
                by_default: false,
                expected_api,
                body,
                candidates: Vec::new(),
            };
            assert(forward@.candidates =~= Seq::empty());
            return Ok(forward);
        }
        let has_picture = body_contains_image(&body);
        let candidates = if has_picture {
            vision_models(pool, catalog)
        } else {
            copy_texts(pool)
        };
        if has_picture && candidates.len() == 0 {
            return Err(
                ErrorReply::new(
                    503,
                    "no vision-capable model available in priority pool".to_owned(),
                ),
            );
        }
        Ok(Forward { model, by_default: true, expected_api, body, candidates })
    }

    /// Opens a request from its raw body.
    pub fn open(
        default_model: &str,
        pool: &Vec<String>,
        catalog: &ModelCatalog,
        body: &str,
        expected_api: ApiType,
    ) -> (r: Result<Forward, ErrorReply>)
        requires
            catalog.wf(),
        ensures
            forward_outcome(r) == opened(
                default_model@,
                texts(pool@),
                catalog@,
                parsed(body@),
                expected_api,
            ),
    {
        Forward::from_parsed(default_model, pool, catalog, parse(body), expected_api)
    }

    /// Makes the request ready for a route and says what to send, or that the
    /// model does not speak the API of the request.
    pub fn ready_for(&mut self, route: &Route) -> (step: Step)
        ensures
            step@ == step_to(old(self)@, route@),
            final(self)@ == readied(old(self)@, route@),
    {
        if route.api != self.expected_api {
            let mut message = concat("model '", route.model_id.as_str());
            message.append("' is served via ");
            message.append(api_label(route.api));
            message.append(", not the requested API shape");
            return Step::Reply(ErrorReply::new(400, message));
        }
        if self.by_default {
            set_field(&mut self.body, "model", string(route.model_id.clone()));
        }
        let stream = match get_field(&self.body, "stream") {
            Some(flag) => match flag.as_bool() {
                Some(b) => b,
                None => false,
            },
            None => false,
        };
        Step::Send(
            Outgoing {
                model_id: route.model_id.clone(),
                url: join_url(route.base_url.as_str(), suffix_of(self.expected_api)),
                headers: key_headers(self.expected_api, route.api_key.as_str()),
                stream,
            },
        )
    }

    /// What to do once the router has been asked for a route.
    pub fn on_route(&mut self, r: Result<Route, RouterError>) -> (step: Step)
        ensures
            match r {
                Ok(route) => step@ == step_to(old(self)@, route@) && final(self)@ == readied(
                    old(self)@,
                    route@,
                ),
                Err(e) => step@ == StepView::Reply(no_route(old(self)@, e)) && final(self)@
                    == old(self)@,
            },
    {
        match r {
            Ok(route) => self.ready_for(&route),
            Err(e) => {
                let reply = match &e {
                    RouterError::AllUnavailable { retry_after_secs } => ErrorReply {
                        status: 503,
                        message: "all upstream models in cooldown".to_owned(),
                        retry_after_secs: Some(*retry_after_secs),
                    },
                    RouterError::UnknownModel(_) if !self.by_default => {
                        let mut message = concat("model '", self.model.as_str());
                        message.append("' not served");
                        ErrorReply::new(404, message)
                    },
                    _ => ErrorReply::new(500, concat("router: ", e.message().as_str())),
                };
                Step::Reply(reply)
            },
        }
    }

    /// The first step: asks the router for a route at the time `now`.
    pub fn start<C>(&mut self, router: &mut Router<C>, now: Timestamp) -> (step: Step)
        requires
            old(router).wf(),
        ensures
            final(router).wf(),
            final(router).spec_clock() == old(router).spec_clock(),
            exists|r: Result<Route, RouterError>|
                {
                    &&& #[trigger] routed(old(self)@, old(router)@, final(router)@, now, r)
                    &&& match r {
                        Ok(route) => step@ == step_to(old(self)@, route@) && final(self)@
                            == readied(old(self)@, route@),
                        Err(e) => step@ == StepView::Reply(no_route(old(self)@, e))
                            && final(self)@ == old(self)@,
                    }
                },
    {
        let r = if self.by_default {
            router.select_candidates_at(self.candidates.as_slice(), now)
        } else {
            router.select_at(self.model.as_str(), now)
        };
        assert(routed(old(self)@, old(router)@, router@, now, r));
        self.on_route(r)
    }

    /// What to do once the router has been asked for another route, because
    /// the last one gave way with this status.
    pub fn on_other_route(&mut self, status: u16, r: Result<Route, RouterError>) -> (step: Step)
        ensures
            match r {
                Ok(route) => step@ == step_to(old(self)@, route@) && final(self)@ == readied(
                    old(self)@,
                    route@,
                ),
                Err(e) => step@ == StepView::Reply(no_other_route(status, e)) && final(self)@
                    == old(self)@,
            },
    {
        match r {
            Ok(route) => self.ready_for(&route),
            Err(e) => {
                let reply = match &e {
                    RouterError::AllUnavailable { retry_after_secs } => ErrorReply {
                        status: 503,
                        message: "all upstream models exhausted after quota error".to_owned(),
                        retry_after_secs: Some(*retry_after_secs),
                    },
                    _ => {
                        let mut message = concat(
                            "router retry after ",
                            decimal(status as u64).as_str(),
                        );
                        message.append(": ");
                        message.append(e.message().as_str());
                        ErrorReply::new(500, message)
                    },
                };
                Step::Reply(reply)
            },
        }
    }

    /// What to do with an upstream's reply. The router takes it into account.
    /// Each code on which a model gives way sends a request for the default
    /// model on to the next model that may serve it; any other reply goes to the
    /// client.
    pub fn on_reply<C>(
        &mut self,
        router: &mut Router<C>,
        sent: &Outgoing,
        status: u16,
        retry_after_secs: Option<u64>,
        now: Timestamp,
    ) -> (next: Next)
        requires
            old(router).wf(),
            recordable(old(router)@, sent@.model_id, status, now),
        ensures
            final(router).wf(),
            final(router).spec_clock() == old(router).spec_clock(),
            exists|noted: RouterView|
                {
                    &&& #[trigger] recorded(
                        old(router)@,
                        noted,
                        sent@.model_id,
                        status,
                        retry_after_secs,
                        now,
                    )
                    &&& if passes_on(old(self)@, old(router)@, sent@, status) {
                        &&& next is Again
                        &&& passed_on(
                            without_candidate(old(self)@, sent@.model_id),
                            status,
                            noted,
                            final(router)@,
                            now,
                            next->Again_0@,
                            final(self)@,
                        )
                    } else {
                        &&& final(router)@ == noted
                        &&& final(self)@ == old(self)@
                        &&& next == (Next::Pass {
                            retry_after_secs: if sent@.stream {
                                retry_after_secs
                            } else {
                                None
                            },
                        })
                    }
                },
    {
        router.record_at(sent.model_id.as_str(), status, retry_after_secs, now);
        let ghost noted = router@;
        if sent.stream {
            return Next::Pass { retry_after_secs };
        }
        if !self.by_default || !router.gives_way(sent.model_id.as_str(), status) {
            return Next::Pass { retry_after_secs: None };
        }
        self.candidates = others(&self.candidates, sent.model_id.as_str());
        let ghost rest = self@;
        assert(rest == without_candidate(old(self)@, sent@.model_id));
        let r = router.select_candidates_at(self.candidates.as_slice(), now);
        assert(routed(rest, noted, router@, now, r));
        Next::Again(self.on_other_route(status, r))
    }
}

/// The models of the list that take pictures, in their order.
fn vision_models(pool: &Vec<String>, catalog: &ModelCatalog) -> (ids: Vec<String>)
    requires
        catalog.wf(),
    ensures
        texts(ids@) == texts(pool@).filter(with_vision(catalog@)),
{
    let ghost all = texts(pool@);
    let ghost keep = with_vision(catalog@);
    let mut ids: Vec<String> = Vec::new();
    let mut i: usize = 0;
    assert(all.take(0) =~= Seq::empty());
    assert(texts(ids@) =~= all.take(0).filter(keep));
    while i < pool.len()
        invariant
            i <= pool@.len(),
            all == texts(pool@),
            catalog.wf(),
            keep == with_vision(catalog@),
            texts(ids@) == all.take(i as int).filter(keep),
        decreases pool@.len() - i,
    {
        let ghost before = ids@;
        assert(all.take(i + 1) =~= all.take(i as int).push(pool@[i as int]@));
        proof {
            all.take(i as int).lemma_filter_push(pool@[i as int]@, keep);
        }
        let fits = match catalog.get(pool[i].as_str()) {
            Some(entry) => entry.supports_vision,
            None => false,
        };
        if fits {
            ids.push(pool[i].clone());
            assert(texts(ids@) =~= texts(before).push(pool@[i as int]@));
        }
        i = i + 1;
    }
    assert(all.take(all.len() as int) =~= all);
    ids
}

/// The texts of the list other than this one, in their order.
fn others(list: &Vec<String>, out: &str) -> (rest: Vec<String>)
    ensures
        texts(rest@) == texts(list@).filter(other_than(out@)),
{
    let ghost all = texts(list@);
    let ghost keep = other_than(out@);
    let mut rest: Vec<String> = Vec::new();
    let mut i: usize = 0;
    assert(all.take(0) =~= Seq::empty());
    assert(texts(rest@) =~= all.take(0).filter(keep));
    while i < list.len()
        invariant
            i <= list@.len(),
            all == texts(list@),
            keep == other_than(out@),
            texts(rest@) == all.take(i as int).filter(keep),
        decreases list@.len() - i,
    {
        let ghost before = rest@;
        assert(all.take(i + 1) =~= all.take(i as int).push(list@[i as int]@));
        proof {
            all.take(i as int).lemma_filter_push(list@[i as int]@, keep);
        }
        if !same(list[i].as_str(), out) {
            rest.push(list[i].clone());
            assert(texts(rest@) =~= texts(before).push(list@[i as int]@));
        }
        i = i + 1;
    }
    assert(all.take(all.len() as int) =~= all);
    rest
}

/// One model in the list of the OpenAI API.
pub open spec fn openai_model_tree(entry: ModelEntryView) -> JsonTree {
    JsonTree::Object(
        object_of(
            seq![
                ("id"@, text_tree(entry.id)),
                ("object"@, text_tree("model"@)),
                ("owned_by"@, text_tree(entry.provider)),
                ("vendor"@, text_tree(entry.provider)),
                ("protocol"@, text_tree(protocol_name(entry.api))),
                ("base_url"@, text_tree(entry.base_url)),
            ],
        ),
    )
}

/// One model as the Ollama API shows it.
pub open spec fn ollama_model_tree(entry: ModelEntryView) -> JsonTree {
    JsonTree::Object(
        object_of(
            seq![
                ("name"@, text_tree(entry.id)),
                ("model"@, text_tree(entry.id)),
                ("modified_at"@, text_tree("1970-01-01T00:00:00Z"@)),
                ("size"@, JsonTree::Number(decimal_text(0))),
                (
                    "details"@,
                    JsonTree::Object(
                        object_of(
                            seq![
                                ("family"@, text_tree(entry.provider)),
                                ("parameter_size"@, text_tree(""@)),
                            ],
                        ),
                    ),
                ),
                ("vendor"@, text_tree(entry.provider)),
                ("protocol"@, text_tree(protocol_name(entry.api))),
            ],
        ),
    )
}

fn openai_model(entry: &ModelEntry) -> (value: serde_json::Value)
    ensures
        tree_of(value) == openai_model_tree(entry@),
{
    let fields = vec![
        ("id".to_owned(), string(entry.id.clone())),
        ("object".to_owned(), string("model".to_owned())),
        ("owned_by".to_owned(), string(entry.provider.clone())),
        ("vendor".to_owned(), string(entry.provider.clone())),
        ("protocol".to_owned(), string(api_to_protocol_str(entry.api).to_owned())),
        ("base_url".to_owned(), string(entry.base_url.clone())),
    ];
    assert(field_trees(fields@) =~= seq![
        ("id"@, text_tree(entry@.id)),
        ("object"@, text_tree("model"@)),
        ("owned_by"@, text_tree(entry@.provider)),
        ("vendor"@, text_tree(entry@.provider)),
        ("protocol"@, text_tree(protocol_name(entry@.api))),
        ("base_url"@, text_tree(entry@.base_url)),
    ]);
    object(fields)
}

fn ollama_model(entry: &ModelEntry) -> (value: serde_json::Value)
    ensures
        tree_of(value) == ollama_model_tree(entry@),
{
    let details = vec![
        ("family".to_owned(), string(entry.provider.clone())),
        ("parameter_size".to_owned(), string("".to_owned())),
    ];
    let ghost details_trees = seq![
        ("family"@, text_tree(entry@.provider)),
        ("parameter_size"@, text_tree(""@)),
    ];
    assert(field_trees(details@) =~= details_trees);
    let fields = vec![
        ("name".to_owned(), string(entry.id.clone())),
        ("model".to_owned(), string(entry.id.clone())),
        ("modified_at".to_owned(), string("1970-01-01T00:00:00Z".to_owned())),
        ("size".to_owned(), number(0)),
        ("details".to_owned(), object(details)),
        ("vendor".to_owned(), string(entry.provider.clone())),
        ("protocol".to_owned(), string(api_to_protocol_str(entry.api).to_owned())),
    ];
    assert(field_trees(fields@) =~= seq![
        ("name"@, text_tree(entry@.id)),
        ("model"@, text_tree(entry@.id)),
        ("modified_at"@, text_tree("1970-01-01T00:00:00Z"@)),
        ("size"@, JsonTree::Number(decimal_text(0))),
        ("details"@, JsonTree::Object(object_of(details_trees))),
        ("vendor"@, text_tree(entry@.provider)),
        ("protocol"@, text_tree(protocol_name(entry@.api))),
    ]);
    object(fields)
}

/// The list of the models of a pool, for the OpenAI API.
pub fn openai_list_models(pool: &Vec<ModelEntry>) -> (value: serde_json::Value)
    ensures
        tree_of(value) == JsonTree::Object(
            object_of(
                seq![
                    ("object"@, text_tree("list"@)),
                    (
                        "data"@,
                        JsonTree::List(
                            entries_of(pool@).map_values(
                                |entry: ModelEntryView| openai_model_tree(entry),
                            ),
                        ),
                    ),
                ],
            ),
        ),
{
    let mut data: Vec<serde_json::Value> = Vec::new();
    let mut i: usize = 0;
    while i < pool.len()
        invariant
            i <= pool@.len(),
            data@.len() == i,
            forall|j: int|
                0 <= j < i ==> tree_of(#[trigger] data@[j]) == openai_model_tree(pool@[j]@),
        decreases pool@.len() - i,
    {
        data.push(openai_model(&pool[i]));
        i = i + 1;
    }
    let ghost items = entries_of(pool@).map_values(
        |entry: ModelEntryView| openai_model_tree(entry),
    );
    assert(trees_of(data@) =~= items);
    let fields = vec![
        ("object".to_owned(), string("list".to_owned())),
        ("data".to_owned(), list(data)),
    ];
    assert(field_trees(fields@) =~= seq![
        ("object"@, text_tree("list"@)),
        ("data"@, JsonTree::List(items)),
    ]);
    object(fields)
}

/// The list of the models of a pool, for the Ollama API.
pub fn ollama_tags(pool: &Vec<ModelEntry>) -> (value: serde_json::Value)
    ensures
        tree_of(value) == JsonTree::Object(
            object_of(
                seq![
                    (
                        "models"@,
                        JsonTree::List(
                            entries_of(pool@).map_values(
                                |entry: ModelEntryView| ollama_model_tree(entry),
                            ),
                        ),
                    ),
                ],
            ),
        ),
{
    let mut models: Vec<serde_json::Value> = Vec::new();
    let mut i: usize = 0;
    while i < pool.len()
        invariant
            i <= pool@.len(),
            models@.len() == i,
            forall|j: int|
                0 <= j < i ==> tree_of(#[trigger] models@[j]) == ollama_model_tree(pool@[j]@),
        decreases pool@.len() - i,
    {
        models.push(ollama_model(&pool[i]));
        i = i + 1;
    }
    let ghost items = entries_of(pool@).map_values(
        |entry: ModelEntryView| ollama_model_tree(entry),
    );
    assert(trees_of(models@) =~= items);
    let fields = vec![("models".to_owned(), list(models))];
    assert(field_trees(fields@) =~= seq![("models"@, JsonTree::List(items))]);
    object(fields)
}

/// The answer to a question about one model.
pub open spec fn shown(
    pool: Seq<ModelEntryView>,
    body: Result<JsonTree, Seq<char>>,
) -> Result<JsonTree, ErrorReplyView> {
    match body {
        Err(message) => Err(refusal(400, "invalid JSON: "@ + message)),
        Ok(body) => match field_text(body, "name"@) {
            None => Err(refusal(400, "missing 'name' field"@)),
            Some(name) => match place_of(ids_of(pool), name) {
                Some(i) => Ok(ollama_model_tree(pool[i])),
                None => Err(refusal(404, "model '"@ + name + "' not served"@)),
            },
        },
    }
}

/// An answer in JSON as a value.
pub open spec fn answer_of(r: Result<serde_json::Value, ErrorReply>) -> Result<
    JsonTree,
    ErrorReplyView,
> {
    match r {
        Ok(value) => Ok(tree_of(value)),
        Err(reply) => Err(reply@),
    }
}

/// Answers a question about one model whose body has been read as JSON.
pub fn ollama_show_parsed(
    pool: &Vec<ModelEntry>,
    body: Result<serde_json::Value, String>,
) -> (r: Result<serde_json::Value, ErrorReply>)
    ensures
        answer_of(r) == shown(entries_of(pool@), outcome_of(body)),
{
    let body = match body {
        Ok(body) => body,
        Err(message) => {
            return Err(ErrorReply::new(400, concat("invalid JSON: ", message.as_str())));
        },
    };
    let name = match get_text(&body, "name") {
        Some(name) => name,
        None => {
            return Err(ErrorReply::new(400, "missing 'name' field".to_owned()));
        },
    };
    match position(pool, name) {
        Some(i) => {
            assert(entries_of(pool@)[i as int] == pool@[i as int]@);
            Ok(ollama_model(&pool[i]))
        },
        None => {
            let mut message = concat("model '", name);
            message.append("' not served");
            Err(ErrorReply::new(404, message))
        },
    }
}

/// Answers a question about one model from its raw body.
pub fn ollama_show(pool: &Vec<ModelEntry>, body: &str) -> (r: Result<
    serde_json::Value,
    ErrorReply,
>)
    ensures
        answer_of(r) == shown(entries_of(pool@), parsed(body@)),
{
    ollama_show_parsed(pool, parse(body))
}

/// The first choice of a chat completion.
pub open spec fn first_choice(tree: JsonTree) -> Option<JsonTree> {
    match tree.field("choices"@) {
        Some(choices) => choices.item(0),
        None => None,
    }
}

/// The words of the first choice, empty where there are none.
pub open spec fn choice_content(tree: JsonTree) -> Seq<char> {
    match first_choice(tree) {
        Some(choice) => match choice.field("message"@) {
            Some(message) => match field_text(message, "content"@) {
                Some(text) => text,
                None => ""@,
            },
            None => ""@,
        },
        None => ""@,
    }
}

/// Why the first choice ended, `stop` where that is not said.
pub open spec fn choice_reason(tree: JsonTree) -> Seq<char> {
    match first_choice(tree) {
        Some(choice) => match field_text(choice, "finish_reason"@) {
            Some(text) => text,
            None => "stop"@,
        },
        None => "stop"@,
    }
}

/// The model that a completion names, empty where it names none.
pub open spec fn completion_model(tree: JsonTree) -> Seq<char> {
    match field_text(tree, "model"@) {
        Some(text) => text,
        None => ""@,
    }
}

/// A chat completion in the shape of the Ollama API.
pub open spec fn ollama_chat_tree(completion: JsonTree) -> JsonTree {
    JsonTree::Object(
        object_of(
            seq![
                ("model"@, text_tree(completion_model(completion))),
                ("created_at"@, text_tree("1970-01-01T00:00:00Z"@)),
                (
                    "message"@,
                    JsonTree::Object(
                        object_of(
                            seq![
                                ("role"@, text_tree("assistant"@)),
                                ("content"@, text_tree(choice_content(completion))),
                            ],
                        ),
                    ),
                ),
                ("done"@, JsonTree::Bool(true)),
                ("done_reason"@, text_tree(choice_reason(completion))),
            ],
        ),
    )
}

fn choice_of(completion: &serde_json::Value) -> (choice: Option<&serde_json::Value>)
    ensures
        match choice {
            Some(choice) => first_choice(tree_of(*completion)) == Some(tree_of(*choice)),
            None => first_choice(tree_of(*completion)) is None,
        },
{
    match get_field(completion, "choices") {
        Some(choices) => match choices.as_array() {
            Some(items) => if items.len() > 0 {
                assert(tree_of(*choices)->List_0[0] == tree_of(items@[0]));
                Some(&items[0])
            } else {
                None
            },
            None => None,
        },
        None => None,
    }
}

/// A chat completion in the shape of the Ollama API.
pub fn ollama_chat_from(completion: &serde_json::Value) -> (value: serde_json::Value)
    ensures
        tree_of(value) == ollama_chat_tree(tree_of(*completion)),
{
    let ghost tree = tree_of(*completion);
    let choice = choice_of(completion);
    let content: &str = match choice {
        Some(choice) => match get_field(choice, "message") {
            Some(message) => match get_text(message, "content") {
                Some(text) => text,
                None => "",
            },
            None => "",
        },
        None => "",
    };
    let model: &str = match get_text(completion, "model") {
        Some(text) => text,
        None => "",
    };
    let reason: &str = match choice {
        Some(choice) => match get_text(choice, "finish_reason") {
            Some(text) => text,
            None => "stop",
        },
        None => "stop",
    };
    let message = vec![
        ("role".to_owned(), string("assistant".to_owned())),
        ("content".to_owned(), string(content.to_owned())),
    ];
    let ghost message_trees = seq![
        ("role"@, text_tree("assistant"@)),
        ("content"@, text_tree(choice_content(tree))),
    ];
    assert(field_trees(message@) =~= message_trees);
    let fields = vec![
        ("model".to_owned(), string(model.to_owned())),
        ("created_at".to_owned(), string("1970-01-01T00:00:00Z".to_owned())),
        ("message".to_owned(), object(message)),
        ("done".to_owned(), boolean(true)),
        ("done_reason".to_owned(), string(reason.to_owned())),
    ];
    assert(field_trees(fields@) =~= seq![
        ("model"@, text_tree(completion_model(tree))),
        ("created_at"@, text_tree("1970-01-01T00:00:00Z"@)),
        ("message"@, JsonTree::Object(object_of(message_trees))),
        ("done"@, JsonTree::Bool(true)),
        ("done_reason"@, text_tree(choice_reason(tree))),
    ]);
    object(fields)
}

/// The Ollama answer that a completion, read from the upstream's bytes, comes
/// to.
pub open spec fn ollama_answer(body: Result<JsonTree, Seq<char>>) -> Result<
    JsonTree,
    ErrorReplyView,
> {
    match body {
        Ok(completion) => Ok(ollama_chat_tree(completion)),
        Err(message) => Err(refusal(502, "upstream JSON parse: "@ + message)),
    }
}

/// Turns a completion that has been read as JSON into the Ollama answer.
pub fn ollama_chat_parsed(body: Result<serde_json::Value, String>) -> (r: Result<
    serde_json::Value,
    ErrorReply,
>)
    ensures
        answer_of(r) == ollama_answer(outcome_of(body)),
{
    match body {
        Ok(completion) => Ok(ollama_chat_from(&completion)),
        Err(message) => Err(
            ErrorReply::new(502, concat("upstream JSON parse: ", message.as_str())),
        ),
    }
}

/// Turns the upstream's completion into the Ollama answer.
pub fn ollama_chat(bytes: &[u8]) -> (r: Result<serde_json::Value, ErrorReply>)
    ensures
        answer_of(r) == ollama_answer(parsed_bytes(bytes@)),
{
    ollama_chat_parsed(parse_bytes(bytes))
}

/// Everything that the proxy needs to serve requests.
pub struct ServerRuntime<C> {
    pub router: Router<C>,
    pub version: String,
    /// The name that stands for the models of `pool`.
    pub proxy_default_model: String,
    /// The models that serve the default model, in order of priority.
    pub pool: Vec<String>,
    /// The key that clients must show, if any.
    pub api_key: Option<String>,
}

/// The proxy.
pub struct Server<C> {
    pub runtime: ServerRuntime<C>,
}

impl Server<SystemClock> {
    /// A proxy for these models alone: without models for the default name and
    /// without a key.
    pub fn with_entries(entries: Vec<ModelEntry>, version: String) -> (server: Server<SystemClock>)
        ensures
            server.runtime.router.wf(),
            server.runtime.router@.pool == entries_of(entries@),
            server.runtime.version@ == version@,
            server.runtime.proxy_default_model@ == "proxy-default"@,
            server.runtime.pool@.len() == 0,
            server.runtime.api_key is None,
    {
        Server::new(
            ServerRuntime {
                router: Router::with_system_clock(entries),
                version,
                proxy_default_model: "proxy-default".to_owned(),
                pool: Vec::new(),
                api_key: None,
            },
        )
    }
}

impl<C> Server<C> {
    pub fn new(runtime: ServerRuntime<C>) -> (server: Server<C>)
        ensures
            server.runtime == runtime,
    {
        Server { runtime }
    }

    pub fn router(&self) -> (router: &Router<C>)
        ensures
            *router == self.runtime.router,
    {
        &self.runtime.router
    }

    /// The answer to a readiness probe: its status and its words.
    pub fn ready(&self) -> (answer: (u16, &'static str))
        ensures
            answer == (if self.runtime.router@.pool.len() == 0 {
                (503u16, "not ready: no models in pool\n")
            } else {
                (200u16, "ready\n")
            }),
    {
        if self.runtime.router.pool().len() == 0 {
            (503, "not ready: no models in pool\n")
        } else {
            (200, "ready\n")
        }
    }

    /// The words on the root page.
    pub fn root_text(&self) -> (text: String)
        ensures
            text@ == "latte-model-proxy "@ + self.runtime.version@
                + " is running\n  proxy_default_model: "@ + self.runtime.proxy_default_model@
                + "\n  pool: "@ + joined(texts(self.runtime.pool@), ", "@) + "\n  api_key: "@ + (
            if self.runtime.api_key is Some {
                "configured"@
            } else {
                "none"@
            }) + "\n"@,
    {
        let mut text = concat("latte-model-proxy ", self.runtime.version.as_str());
        text.append(" is running\n  proxy_default_model: ");
        text.append(self.runtime.proxy_default_model.as_str());
        text.append("\n  pool: ");
        text.append(join(self.runtime.pool.as_slice(), ", ").as_str());
        text.append("\n  api_key: ");
        text.append(
            if self.runtime.api_key.is_some() {
                "configured"
            } else {
                "none"
            },
        );
        text.append("\n");
        text
    }

    /// The answer to a question about the version.
    pub fn version_info(&self) -> (value: serde_json::Value)
        ensures
            tree_of(value) == JsonTree::Object(
                object_of(
                    seq![
                        ("version"@, text_tree(self.runtime.version@)),
                        ("proxy_default_model"@, text_tree(self.runtime.proxy_default_model@)),
                        (
                            "pool"@,
                            JsonTree::List(
                                texts(self.runtime.pool@).map_values(
                                    |id: Seq<char>| text_tree(id),
                                ),
                            ),
                        ),
                    ],
                ),
            ),
    {
        let pool = &self.runtime.pool;
        let mut items: Vec<serde_json::Value> = Vec::new();
        let mut i: usize = 0;
        while i < pool.len()
            invariant
                i <= pool@.len(),
                items@.len() == i,
                forall|j: int| 0 <= j < i ==> tree_of(#[trigger] items@[j]) == text_tree(pool@[j]@),
            decreases pool@.len() - i,
        {
            items.push(string(pool[i].clone()));
            i = i + 1;
        }
        let ghost ids = texts(pool@).map_values(|id: Seq<char>| text_tree(id));
        assert(trees_of(items@) =~= ids);
        let fields = vec![
            ("version".to_owned(), string(self.runtime.version.clone())),
            ("proxy_default_model".to_owned(), string(self.runtime.proxy_default_model.clone())),
            ("pool".to_owned(), list(items)),
        ];
        assert(field_trees(fields@) =~= seq![
            ("version"@, text_tree(self.runtime.version@)),
            ("proxy_default_model"@, text_tree(self.runtime.proxy_default_model@)),
            ("pool"@, JsonTree::List(ids)),
        ]);
        object(fields)
    }

    /// Opens a chat request from its raw body.
    pub fn open(&self, body: &str, expected_api: ApiType) -> (r: Result<Forward, ErrorReply>)
        requires
            self.runtime.router.wf(),
        ensures
            forward_outcome(r) == opened(
                self.runtime.proxy_default_model@,
                texts(self.runtime.pool@),
                self.runtime.router@.catalog,
                parsed(body@),
                expected_api,
            ),
    {
        Forward::open(
            self.runtime.proxy_default_model.as_str(),
            &self.runtime.pool,
            self.runtime.router.catalog(),
            body,
            expected_api,
        )
    }

    /// Whether a request may pass.
    pub fn admits(&self, path: &str, header: Option<&str>) -> (b: bool)
        ensures
            b == (!is_protected(path@) || match self.runtime.api_key {
                Some(key) => shows_key(opt_str(header), key@),
                None => true,
            }),
    {
        match &self.runtime.api_key {
            Some(key) => authorized(path, Some(key.as_str()), header),
            None => true,
        }
    }
}

} // verus!
