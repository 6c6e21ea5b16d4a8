//! Vendors: how a token for one is had and kept fresh, and how its models are
//! found.
//!
//! Points in time are nanoseconds of a clock that never runs backwards, and
//! spans are nanoseconds.
use crate::env::{resolve_env, resolved};
use crate::json::{
    field_text, get_field, get_text, outcome_of, parse_bytes, parsed_bytes, tree_of, trees_of,
    JsonTree,
};
use crate::models::opt_text;
use crate::table::Table;
use crate::text::{concat, is_slash, trim_end_slashes, trimmed_end};
use vstd::prelude::*;

verus! {

/// Why something could not be had of a vendor.
#[derive(Clone, Debug)]
pub enum VendorError {
    RefreshFailed(String),
    Network(String),
    EnvMissing(String),
    NotImplemented(String),
}

/// The same as a value.
pub enum VendorErrorView {
    RefreshFailed(Seq<char>),
    Network(Seq<char>),
    EnvMissing(Seq<char>),
    NotImplemented(Seq<char>),
}

impl View for VendorError {
    type V = VendorErrorView;

    open spec fn view(&self) -> VendorErrorView {
        match self {
            VendorError::RefreshFailed(text) => VendorErrorView::RefreshFailed(text@),
            VendorError::Network(text) => VendorErrorView::Network(text@),
            VendorError::EnvMissing(text) => VendorErrorView::EnvMissing(text@),
            VendorError::NotImplemented(text) => VendorErrorView::NotImplemented(text@),
        }
    }
}

/// An error in words.
pub open spec fn vendor_error_text(e: VendorErrorView) -> Seq<char> {
    match e {
        VendorErrorView::RefreshFailed(text) => "token refresh failed: "@ + text,
        VendorErrorView::Network(text) => "network error: "@ + text,
        VendorErrorView::EnvMissing(text) => "env var not set: "@ + text,
        VendorErrorView::NotImplemented(text) => "not implemented: "@ + text,
    }
}

impl VendorError {
    /// This error in words.
    pub fn message(&self) -> (text: String)
        ensures
            text@ == vendor_error_text(self@),
    {
        match self {
            VendorError::RefreshFailed(text) => concat("token refresh failed: ", text.as_str()),
            VendorError::Network(text) => concat("network error: ", text.as_str()),
            VendorError::EnvMissing(text) => concat("env var not set: ", text.as_str()),
            VendorError::NotImplemented(text) => concat("not implemented: ", text.as_str()),
        }
    }
}

pub type VendorResult<T> = Result<T, VendorError>;

/// What is had of a vendor, as a value.
pub open spec fn token_of(r: VendorResult<String>) -> Result<Seq<char>, VendorErrorView> {
    match r {
        Ok(token) => Ok(token@),
        Err(e) => Err(e@),
    }
}

/// The name of a vendor.
#[derive(Debug, Clone, Hash, PartialEq, Eq, PartialOrd, Ord)]
pub struct VendorId(pub String);

impl View for VendorId {
    type V = Seq<char>;

    open spec fn view(&self) -> Seq<char> {
        self.0@
    }
}

impl VendorId {
    pub fn new(s: &str) -> (id: VendorId)
        ensures
            id@ == s@,
    {
        VendorId(s.to_owned())
    }

    pub fn as_str(&self) -> (s: &str)
        ensures
            s@ == self@,
    {
        self.0.as_str()
    }

    /// The name as it is shown.
    pub fn text(&self) -> (s: String)
        ensures
            s@ == self@,
    {
        self.0.clone()
    }
}

// ---------------------------------------------------------------------------
// Tokens

/// Whoever has the token of a vendor.
pub trait TokenProvider {
    /// Whether a token can be asked for.
    spec fn ready(&self) -> bool;

    fn vendor_id(&self) -> &VendorId;

    /// A token that is good at `now`, refreshed if need be.
    fn token(&mut self, now: u128, env: &Table<String>) -> (r: VendorResult<String>)
        requires
            old(self).ready(),
            env.wf(),
        ensures
            final(self).ready(),
    ;

    /// A token that was refreshed at once.
    fn refresh_now(&mut self, now: u128, env: &Table<String>) -> (r: VendorResult<String>)
        requires
            old(self).ready(),
            env.wf(),
        ensures
            final(self).ready(),
    ;

    fn is_expired(&self, now: u128) -> bool;

    /// How long the token is still good.
    fn remaining(&self, now: u128) -> u128;

    fn kind(&self) -> &'static str;
}

/// A key that stays good: a text, or a reference to a variable.
#[derive(Debug)]
pub struct ApiKeyProvider {
    pub vendor_id: VendorId,
    pub key: String,
}

/// How long a key is good, which stands for ever.
pub const KEY_REMAINING_NANOS: u128 = 9_223_372_036_854_775_807_000_000_000;

impl ApiKeyProvider {
    pub fn new(vendor: &str, key: &str) -> (provider: ApiKeyProvider)
        ensures
            provider.vendor_id@ == vendor@,
            provider.key@ == key@,
    {
        ApiKeyProvider { vendor_id: VendorId::new(vendor), key: key.to_owned() }
    }
}

impl TokenProvider for ApiKeyProvider {
    open spec fn ready(&self) -> bool {
        true
    }

    fn vendor_id(&self) -> (id: &VendorId)
        ensures
            *id == self.vendor_id,
    {
        &self.vendor_id
    }

    fn token(&mut self, now: u128, env: &Table<String>) -> (r: VendorResult<String>)
        ensures
            *final(self) == *old(self),
            token_of(r) == Ok::<Seq<char>, VendorErrorView>(resolved(old(self).key@, env@)),
    {
        Ok(resolve_env(self.key.as_str(), env))
    }

    fn refresh_now(&mut self, now: u128, env: &Table<String>) -> (r: VendorResult<String>)
        ensures
            *final(self) == *old(self),
            token_of(r) == Ok::<Seq<char>, VendorErrorView>(resolved(old(self).key@, env@)),
    {
        Ok(resolve_env(self.key.as_str(), env))
    }

    fn is_expired(&self, now: u128) -> (b: bool)
        ensures
            !b,
    {
        false
    }

    fn remaining(&self, now: u128) -> (nanos: u128)
        ensures
            nanos == KEY_REMAINING_NANOS,
    {
        KEY_REMAINING_NANOS
    }

    fn kind(&self) -> (kind: &'static str)
        ensures
            kind@ == "api_key"@,
    {
        "api_key"
    }
}

/// Whoever can get a new token.
pub trait BearerRefresher {
    /// Whether a new token can be asked for.
    spec fn ready(&self) -> bool;

    /// Whether this may come of asking, in this environment.
    spec fn may_give(&self, env: Map<Seq<char>, String>, r: VendorResult<String>) -> bool;

    fn refresh(&self, env: &Table<String>) -> (r: VendorResult<String>)
        requires
            self.ready(),
            env.wf(),
        ensures
            self.may_give(env@, r),
    ;
}

/// Gets a new token from a function.
pub struct FixedIntervalRefresher<F> {
    pub started_at: u128,
    pub interval: u128,
    pub refresh_fn: F,
}

impl<F: Fn() -> VendorResult<String>> FixedIntervalRefresher<F> {
    /// A refresher that starts at `now`.
    pub fn new(now: u128, interval: u128, refresh_fn: F) -> (refresher: FixedIntervalRefresher<F>)
        ensures
            refresher == (FixedIntervalRefresher { started_at: now, interval, refresh_fn }),
    {
        FixedIntervalRefresher { started_at: now, interval, refresh_fn }
    }

    /// A refresher that started at another time.
    pub fn with_started_at(started_at: u128, interval: u128, refresh_fn: F) -> (refresher:
        FixedIntervalRefresher<F>)
        ensures
            refresher == (FixedIntervalRefresher { started_at, interval, refresh_fn }),
    {
        FixedIntervalRefresher { started_at, interval, refresh_fn }
    }
}

impl<F: Fn() -> VendorResult<String>> BearerRefresher for FixedIntervalRefresher<F> {
    open spec fn ready(&self) -> bool {
        call_requires(self.refresh_fn, ())
    }

    open spec fn may_give(&self, env: Map<Seq<char>, String>, r: VendorResult<String>) -> bool {
        call_ensures(self.refresh_fn, (), r)
    }

    fn refresh(&self, env: &Table<String>) -> (r: VendorResult<String>) {
        (self.refresh_fn)()
    }
}

/// Takes a new token from a variable of the environment, if it is given one. The
/// token is empty where there is none.
#[derive(Debug)]
pub struct EnvRefresher {
    pub variable: Option<String>,
}

/// The token that a variable holds.
pub open spec fn token_in(variable: Option<Seq<char>>, env: Map<Seq<char>, String>) -> Seq<char> {
    match variable {
        Some(name) if env.contains_key(name) => env[name]@,
        _ => Seq::empty(),
    }
}

impl BearerRefresher for EnvRefresher {
    open spec fn ready(&self) -> bool {
        true
    }

    open spec fn may_give(&self, env: Map<Seq<char>, String>, r: VendorResult<String>) -> bool {
        token_of(r) == Ok::<Seq<char>, VendorErrorView>(token_in(opt_text(self.variable), env))
    }

    fn refresh(&self, env: &Table<String>) -> (r: VendorResult<String>) {
        match &self.variable {
            Some(name) => match env.get(name.as_str()) {
                Some(value) => Ok(value.clone()),
                None => Ok(String::new()),
            },
            None => Ok(String::new()),
        }
    }
}

/// How old a token of `started_at` is at `now`.
pub open spec fn age(started_at: u128, now: u128) -> int {
    if now > started_at {
        now - started_at
    } else {
        0
    }
}

/// A token that is good for a span, and is then refreshed.
pub struct BearerProvider<R> {
    pub vendor_id: VendorId,
    pub token: String,
    pub started_at: u128,
    pub interval: u128,
    pub refresher: R,
}

impl<R> BearerProvider<R> {
    /// Whether the token is too old.
    pub open spec fn expired(&self, now: u128) -> bool {
        age(self.started_at, now) > self.interval
    }

    /// How long the token is still good, in nanoseconds.
    pub open spec fn spec_remaining(&self, now: u128) -> int {
        if age(self.started_at, now) < self.interval {
            self.interval - age(self.started_at, now)
        } else {
            0
        }
    }

    /// The same with another token.
    pub open spec fn renewed(&self, token: String, now: u128) -> BearerProvider<R> {
        BearerProvider { token, started_at: now, ..*self }
    }

    fn age_at(&self, now: u128) -> (nanos: u128)
        ensures
            nanos == age(self.started_at, now),
    {
        if now > self.started_at {
            now - self.started_at
        } else {
            0
        }
    }

    /// The token, if it is still good.
    pub fn good_token(&self, now: u128) -> (token: Option<String>)
        ensures
            token == (if self.expired(now) {
                None
            } else {
                Some(self.token)
            }),
    {
        if self.age_at(now) > self.interval {
            None
        } else {
            Some(self.token.clone())
        }
    }

    /// Takes what came of asking for a new token. Only a new token changes
    /// anything.
    pub fn on_refreshed(&mut self, outcome: VendorResult<String>, now: u128) -> (r: VendorResult<
        String,
    >)
        ensures
            r == outcome,
            *final(self) == (match outcome {
                Ok(token) => old(self).renewed(token, now),
                Err(_) => *old(self),
            }),
    {
        match outcome {
            Ok(token) => {
                self.token = token.clone();
                self.started_at = now;
                Ok(token)
            },
            Err(e) => Err(e),
        }
    }

    /// The token as it may be shown: its first eight characters.
    pub fn preview(&self) -> (text: String)
        ensures
            text@ == self.token@.take(
                if self.token@.len() < 8 {
                    self.token@.len() as int
                } else {
                    8
                },
            ) + "..."@,
    {
        let n: usize = self.token.as_str().unicode_len();
        let shown: usize = if n < 8 {
            n
        } else {
            8
        };
        concat(self.token.as_str().substring_char(0, shown), "...")
    }
}

impl<R: BearerRefresher> BearerProvider<R> {
    /// A token that starts to count at `now`.
    pub fn new(vendor: &str, initial_token: &str, now: u128, interval: u128, refresher: R) -> (p:
        BearerProvider<R>)
        ensures
            p.vendor_id@ == vendor@,
            p.token@ == initial_token@,
            p.started_at == now,
            p.interval == interval,
            p.refresher == refresher,
    {
        BearerProvider {
            vendor_id: VendorId::new(vendor),
            token: initial_token.to_owned(),
            started_at: now,
            interval,
            refresher,
        }
    }

    /// A token that was given out at another time.
    pub fn with_started_at(
        vendor: &str,
        initial_token: &str,
        started_at: u128,
        interval: u128,
        refresher: R,
    ) -> (p: BearerProvider<R>)
        ensures
            p.vendor_id@ == vendor@,
            p.token@ == initial_token@,
            p.started_at == started_at,
            p.interval == interval,
            p.refresher == refresher,
    {
        BearerProvider {
            vendor_id: VendorId::new(vendor),
            token: initial_token.to_owned(),
            started_at,
            interval,
            refresher,
        }
    }
}

impl<R: BearerRefresher> TokenProvider for BearerProvider<R> {
    open spec fn ready(&self) -> bool {
        self.refresher.ready()
    }

    fn vendor_id(&self) -> (id: &VendorId)
        ensures
            *id == self.vendor_id,
    {
        &self.vendor_id
    }

    fn token(&mut self, now: u128, env: &Table<String>) -> (r: VendorResult<String>)
        ensures
            !old(self).expired(now) ==> r == Ok::<String, VendorError>(old(self).token)
                && *final(self) == *old(self),
            old(self).expired(now) ==> old(self).refresher.may_give(env@, r) && *final(self) == (
            match r {
                Ok(token) => old(self).renewed(token, now),
                Err(_) => *old(self),
            }),
    {
        match self.good_token(now) {
            Some(token) => Ok(token),
            None => {
                let outcome = self.refresher.refresh(env);
                self.on_refreshed(outcome, now)
            },
        }
    }

    fn refresh_now(&mut self, now: u128, env: &Table<String>) -> (r: VendorResult<String>)
        ensures
            old(self).refresher.may_give(env@, r),
            *final(self) == (match r {
                Ok(token) => old(self).renewed(token, now),
                Err(_) => *old(self),
            }),
    {
        let outcome = self.refresher.refresh(env);
        self.on_refreshed(outcome, now)
    }

    fn is_expired(&self, now: u128) -> (b: bool)
        ensures
            b == self.expired(now),
    {
        self.age_at(now) > self.interval
    }

    fn remaining(&self, now: u128) -> (nanos: u128)
        ensures
            nanos == self.spec_remaining(now),
    {
        let old_by: u128 = self.age_at(now);
        if old_by < self.interval {
            self.interval - old_by
        } else {
            0
        }
    }

    fn kind(&self) -> (kind: &'static str)
        ensures
            kind@ == "bearer"@,
    {
        "bearer"
    }
}

/// A token that was just refreshed is good for its whole span, and no longer.
pub proof fn new_token_is_good_for_its_span<R>(
    provider: BearerProvider<R>,
    token: String,
    now: u128,
    later: u128,
)
    requires
        now <= later,
    ensures
        provider.renewed(token, now).expired(later) <==> later - now > provider.interval,
{
}

// ---------------------------------------------------------------------------
// Models

/// A model that a vendor has.
#[derive(Clone, Debug)]
pub struct ModelDescriptor {
    pub id: String,
    pub display_name: String,
    pub context_window: Option<u32>,
    /// What else the vendor tells of it.
    pub vendor_specific: Table<String>,
}

/// The same as a value.
pub struct DescriptorView {
    pub id: Seq<char>,
    pub display_name: Seq<char>,
    pub context_window: Option<u32>,
    pub vendor_specific: Map<Seq<char>, Seq<char>>,
}

/// Texts by name, as values.
pub open spec fn words_of(table: Map<Seq<char>, String>) -> Map<Seq<char>, Seq<char>> {
    table.map_values(|s: String| s@)
}

impl View for ModelDescriptor {
    type V = DescriptorView;

    open spec fn view(&self) -> DescriptorView {
        DescriptorView {
            id: self.id@,
            display_name: self.display_name@,
            context_window: self.context_window,
            vendor_specific: words_of(self.vendor_specific@),
        }
    }
}

/// Models as values.
pub open spec fn descriptors_of(list: Seq<ModelDescriptor>) -> Seq<DescriptorView> {
    list.map_values(|d: ModelDescriptor| d@)
}

/// Whether what is told of each model is in order.
pub open spec fn descriptors_wf(list: Seq<ModelDescriptor>) -> bool {
    forall|i: int| 0 <= i < list.len() ==> (#[trigger] list[i]).wf()
}

impl ModelDescriptor {
    pub open spec fn wf(&self) -> bool {
        self.vendor_specific.wf()
    }

    pub fn new(id: &str, display_name: &str) -> (d: ModelDescriptor)
        ensures
            d.wf(),
            d@ == (DescriptorView {
                id: id@,
                display_name: display_name@,
                context_window: None,
                vendor_specific: Map::empty(),
            }),
    {
        let d = ModelDescriptor {
            id: id.to_owned(),
            display_name: display_name.to_owned(),
            context_window: None,
            vendor_specific: Table::new(),
        };
        assert(d@.vendor_specific =~= Map::empty());
        d
    }

    fn copy(&self) -> (d: ModelDescriptor)
        requires
            self.wf(),
        ensures
            d.wf(),
            d@ == self@,
    {
        ModelDescriptor {
            id: self.id.clone(),
            display_name: self.display_name.clone(),
            context_window: self.context_window,
            vendor_specific: self.vendor_specific.copy(),
        }
    }
}

/// What came of asking a vendor for its models.
pub enum DiscoveryReply {
    /// The question did not get there, for this reason.
    NotSent(String),
    /// The vendor refused, with this status in words.
    Refused(String),
    /// The reply is not JSON, for this reason.
    Unreadable(String),
    Body(serde_json::Value),
}

/// The same as a value.
pub enum DiscoveryReplyView {
    NotSent(Seq<char>),
    Refused(Seq<char>),
    Unreadable(Seq<char>),
    Body(JsonTree),
}

impl View for DiscoveryReply {
    type V = DiscoveryReplyView;

    open spec fn view(&self) -> DiscoveryReplyView {
        match self {
            DiscoveryReply::NotSent(e) => DiscoveryReplyView::NotSent(e@),
            DiscoveryReply::Refused(status) => DiscoveryReplyView::Refused(status@),
            DiscoveryReply::Unreadable(e) => DiscoveryReplyView::Unreadable(e@),
            DiscoveryReply::Body(value) => DiscoveryReplyView::Body(tree_of(*value)),
        }
    }
}

/// What the bytes of a reply come to, read as JSON. Where they are not JSON, the
/// words are those of the HTTP client.
pub open spec fn reply_in(body: Result<JsonTree, Seq<char>>) -> DiscoveryReplyView {
    match body {
        Ok(tree) => DiscoveryReplyView::Body(tree),
        Err(_) => DiscoveryReplyView::Unreadable("error decoding response body"@),
    }
}

impl DiscoveryReply {
    /// The reply that has been read as JSON, or has failed to be.
    pub fn from_parsed(body: Result<serde_json::Value, String>) -> (reply: DiscoveryReply)
        ensures
            reply@ == reply_in(outcome_of(body)),
    {
        match body {
            Ok(value) => DiscoveryReply::Body(value),
            Err(_) => DiscoveryReply::Unreadable("error decoding response body".to_owned()),
        }
    }

    /// The reply in these bytes.
    pub fn from_bytes(bytes: &[u8]) -> (reply: DiscoveryReply)
        ensures
            reply@ == reply_in(parsed_bytes(bytes@)),
    {
        DiscoveryReply::from_parsed(parse_bytes(bytes))
    }
}

/// The models, or why there are none, as a value.
pub open spec fn models_found(r: VendorResult<Vec<ModelDescriptor>>) -> Result<
    Seq<DescriptorView>,
    VendorErrorView,
> {
    match r {
        Ok(list) => Ok(descriptors_of(list@)),
        Err(e) => Err(e@),
    }
}

/// A way to find the models of a vendor.
pub trait ModelDiscovery {
    spec fn spec_protocol(&self) -> Seq<char>;

    /// Where the models are asked for, if they are.
    spec fn asks(&self, base_url: Seq<char>) -> Option<Seq<char>>;

    /// What a reply tells.
    spec fn finds(&self, reply: DiscoveryReplyView) -> Result<
        Seq<DescriptorView>,
        VendorErrorView,
    >;

    spec fn wf(&self) -> bool;

    fn protocol(&self) -> (name: &'static str)
        ensures
            name@ == self.spec_protocol(),
    ;

    /// Where the models are asked for, if they are.
    fn url(&self, base_url: &str) -> (url: Option<String>)
        ensures
            opt_text(url) == self.asks(base_url@),
    ;

    /// The models that a reply tells of.
    fn discover(&self, reply: &DiscoveryReply) -> (r: VendorResult<Vec<ModelDescriptor>>)
        requires
            self.wf(),
        ensures
            models_found(r) == self.finds(reply@),
            r matches Ok(list) ==> descriptors_wf(list@),
    ;
}

/// The API of Anthropic.
#[derive(Clone, Copy, Debug)]
pub struct AnthropicModelsApi;

/// The API of OpenAI, which many vendors have.
#[derive(Clone, Copy, Debug)]
pub struct OpenAiModelsApi;

/// A list that is known beforehand.
#[derive(Clone, Debug)]
pub struct Manual(pub Vec<ModelDescriptor>);

/// A model in a reply of Anthropic, if it has an id.
pub open spec fn anthropic_model(tree: JsonTree) -> Option<DescriptorView> {
    match field_text(tree, "id"@) {
        Some(id) => Some(
            DescriptorView {
                id,
                display_name: match field_text(tree, "display_name"@) {
                    Some(name) => name,
                    None => id,
                },
                context_window: None,
                vendor_specific: match field_text(tree, "type"@) {
                    Some(kind) => map!["type"@ => kind],
                    None => Map::empty(),
                },
            },
        ),
        None => None,
    }
}

/// A model in a reply of OpenAI, if it has an id.
pub open spec fn openai_model(tree: JsonTree) -> Option<DescriptorView> {
    match field_text(tree, "id"@) {
        Some(id) => Some(
            DescriptorView {
                id,
                display_name: id,
                context_window: None,
                vendor_specific: map!["owned_by"@ => match field_text(tree, "owned_by"@) {
                    Some(owner) => owner,
                    None => "openai"@,
                }],
            },
        ),
        None => None,
    }
}

/// How the models of a reply are read.
pub open spec fn anthropic_reading() -> spec_fn(JsonTree) -> Option<DescriptorView> {
    |tree: JsonTree| anthropic_model(tree)
}

/// How the models of a reply are read.
pub open spec fn openai_reading() -> spec_fn(JsonTree) -> Option<DescriptorView> {
    |tree: JsonTree| openai_model(tree)
}

/// The models in a list, if each can be read.
pub open spec fn models_in(
    trees: Seq<JsonTree>,
    read: spec_fn(JsonTree) -> Option<DescriptorView>,
) -> Option<Seq<DescriptorView>>
    decreases trees.len(),
{
    if trees.len() == 0 {
        Some(Seq::empty())
    } else {
        match (models_in(trees.drop_last(), read), read(trees.last())) {
            (Some(list), Some(model)) => Some(list.push(model)),
            _ => None,
        }
    }
}

/// What the reply of a vendor tells.
pub open spec fn read_reply(
    protocol: Seq<char>,
    reply: DiscoveryReplyView,
    read: spec_fn(JsonTree) -> Option<DescriptorView>,
) -> Result<Seq<DescriptorView>, VendorErrorView> {
    match reply {
        DiscoveryReplyView::NotSent(e) => Err(VendorErrorView::Network(e)),
        DiscoveryReplyView::Refused(status) => Err(
            VendorErrorView::Network(protocol + " /v1/models returned "@ + status),
        ),
        DiscoveryReplyView::Unreadable(e) => Err(
            VendorErrorView::RefreshFailed("json parse: "@ + e),
        ),
        DiscoveryReplyView::Body(tree) => match tree.field("data"@) {
            Some(JsonTree::List(items)) => match models_in(items, read) {
                Some(list) => Ok(list),
                None => Err(VendorErrorView::RefreshFailed("missing 'id'"@)),
            },
            _ => Err(VendorErrorView::RefreshFailed("missing 'data' field"@)),
        },
    }
}

fn read_anthropic_model(value: &serde_json::Value) -> (d: Option<ModelDescriptor>)
    ensures
        match d {
            Some(d) => d.wf() && anthropic_model(tree_of(*value)) == Some(d@),
            None => anthropic_model(tree_of(*value)) is None,
        },
{
    match get_text(value, "id") {
        Some(id) => {
            let name = match get_text(value, "display_name") {
                Some(name) => name,
                None => id,
            };
            let mut d = ModelDescriptor::new(id, name);
            if let Some(kind) = get_text(value, "type") {
                d.vendor_specific.insert("type".to_owned(), kind.to_owned());
                assert(d@.vendor_specific =~= map!["type"@ => kind@]);
            }
            Some(d)
        },
        None => None,
    }
}

fn read_openai_model(value: &serde_json::Value) -> (d: Option<ModelDescriptor>)
    ensures
        match d {
            Some(d) => d.wf() && openai_model(tree_of(*value)) == Some(d@),
            None => openai_model(tree_of(*value)) is None,
        },
{
    match get_text(value, "id") {
        Some(id) => {
            let owner = match get_text(value, "owned_by") {
                Some(owner) => owner,
                None => "openai",
            };
            let mut d = ModelDescriptor::new(id, id);
            d.vendor_specific.insert("owned_by".to_owned(), owner.to_owned());
            assert(d@.vendor_specific =~= map!["owned_by"@ => owner@]);
            Some(d)
        },
        None => None,
    }
}

fn missing_id() -> (e: VendorError)
    ensures
        e@ == VendorErrorView::RefreshFailed("missing 'id'"@),
{
    VendorError::RefreshFailed("missing 'id'".to_owned())
}

/// The items under `data`, or why there are none.
fn data_of<'a>(protocol: &str, reply: &'a DiscoveryReply) -> (r: Result<
    &'a Vec<serde_json::Value>,
    VendorError,
>)
    ensures
        match r {
            Ok(items) => reply@ matches DiscoveryReplyView::Body(tree) && tree.field("data"@)
                == Some(JsonTree::List(trees_of(items@))),
            Err(e) => forall|read: spec_fn(JsonTree) -> Option<DescriptorView>| #[trigger]
                read_reply(protocol@, reply@, read) == Err::<
                    Seq<DescriptorView>,
                    VendorErrorView,
                >(e@),
        },
{
    match reply {
        DiscoveryReply::NotSent(e) => Err(VendorError::Network(e.clone())),
        DiscoveryReply::Refused(status) => {
            let mut text = concat(protocol, " /v1/models returned ");
            text.append(status.as_str());
            Err(VendorError::Network(text))
        },
        DiscoveryReply::Unreadable(e) => Err(
            VendorError::RefreshFailed(concat("json parse: ", e.as_str())),
        ),
        DiscoveryReply::Body(value) => match get_field(value, "data") {
            Some(data) => match data.as_array() {
                Some(items) => Ok(items),
                None => Err(VendorError::RefreshFailed("missing 'data' field".to_owned())),
            },
            None => Err(VendorError::RefreshFailed("missing 'data' field".to_owned())),
        },
    }
}

proof fn lemma_unread_stays(
    trees: Seq<JsonTree>,
    read: spec_fn(JsonTree) -> Option<DescriptorView>,
    i: int,
)
    requires
        0 <= i <= trees.len(),
        models_in(trees.take(i), read) is None,
    ensures
        models_in(trees, read) is None,
    decreases trees.len() - i,
{
    if i < trees.len() {
        assert(trees.take(i + 1).drop_last() =~= trees.take(i));
        lemma_unread_stays(trees, read, i + 1);
    } else {
        assert(trees.take(i) =~= trees);
    }
}

impl ModelDiscovery for AnthropicModelsApi {
    open spec fn spec_protocol(&self) -> Seq<char> {
        "anthropic"@
    }

    open spec fn asks(&self, base_url: Seq<char>) -> Option<Seq<char>> {
        Some(trimmed_end(base_url, is_slash()) + "/v1/models?limit=100"@)
    }

    open spec fn finds(&self, reply: DiscoveryReplyView) -> Result<
        Seq<DescriptorView>,
        VendorErrorView,
    > {
        read_reply("anthropic"@, reply, anthropic_reading())
    }

    open spec fn wf(&self) -> bool {
        true
    }

    fn protocol(&self) -> (name: &'static str) {
        "anthropic"
    }

    fn url(&self, base_url: &str) -> (url: Option<String>) {
        Some(concat(trim_end_slashes(base_url), "/v1/models?limit=100"))
    }

    fn discover(&self, reply: &DiscoveryReply) -> (r: VendorResult<Vec<ModelDescriptor>>) {
        match data_of("anthropic", reply) {
            Ok(items) => {
                let ghost read = anthropic_reading();
                let ghost trees = trees_of(items@);
                let mut list: Vec<ModelDescriptor> = Vec::new();
                let mut i: usize = 0;
                assert(trees.take(0) =~= Seq::empty());
                assert(descriptors_of(list@) =~= Seq::empty());
                while i < items.len()
                    invariant
                        i <= items@.len(),
                        read == anthropic_reading(),
                        trees == trees_of(items@),
                        reply@ matches DiscoveryReplyView::Body(tree) && tree.field("data"@)
                            == Some(JsonTree::List(trees)),
                        models_in(trees.take(i as int), read) == Some(descriptors_of(list@)),
                        descriptors_wf(list@),
                    decreases items@.len() - i,
                {
                    assert(trees.take(i + 1).drop_last() =~= trees.take(i as int));
                    assert(trees.take(i + 1).last() == tree_of(items@[i as int]));
                    match read_anthropic_model(&items[i]) {
                        Some(d) => {
                            let ghost before = list@;
                            let ghost view = d@;
                            list.push(d);
                            assert(descriptors_of(list@) =~= descriptors_of(before).push(view));
                        },
                        None => {
                            proof {
                                lemma_unread_stays(trees, read, i + 1);
                            }
                            return Err(missing_id());
                        },
                    }
                    i = i + 1;
                }
                assert(trees.take(trees.len() as int) =~= trees);
                Ok(list)
            },
            Err(e) => Err(e),
        }
    }
}

impl ModelDiscovery for OpenAiModelsApi {
    open spec fn spec_protocol(&self) -> Seq<char> {
        "openai"@
    }

    open spec fn asks(&self, base_url: Seq<char>) -> Option<Seq<char>> {
        Some(trimmed_end(base_url, is_slash()) + "/v1/models"@)
    }

    open spec fn finds(&self, reply: DiscoveryReplyView) -> Result<
        Seq<DescriptorView>,
        VendorErrorView,
    > {
        read_reply("openai"@, reply, openai_reading())
    }

    open spec fn wf(&self) -> bool {
        true
    }

    fn protocol(&self) -> (name: &'static str) {
        "openai"
    }

    fn url(&self, base_url: &str) -> (url: Option<String>) {
        Some(concat(trim_end_slashes(base_url), "/v1/models"))
    }

    fn discover(&self, reply: &DiscoveryReply) -> (r: VendorResult<Vec<ModelDescriptor>>) {
        match data_of("openai", reply) {
            Ok(items) => {
                let ghost read = openai_reading();
                let ghost trees = trees_of(items@);
                let mut list: Vec<ModelDescriptor> = Vec::new();
                let mut i: usize = 0;
                assert(trees.take(0) =~= Seq::empty());
                assert(descriptors_of(list@) =~= Seq::empty());
                while i < items.len()
                    invariant
                        i <= items@.len(),
                        read == openai_reading(),
                        trees == trees_of(items@),
                        reply@ matches DiscoveryReplyView::Body(tree) && tree.field("data"@)
                            == Some(JsonTree::List(trees)),
                        models_in(trees.take(i as int), read) == Some(descriptors_of(list@)),
                        descriptors_wf(list@),
                    decreases items@.len() - i,
                {
                    assert(trees.take(i + 1).drop_last() =~= trees.take(i as int));
                    assert(trees.take(i + 1).last() == tree_of(items@[i as int]));
                    match read_openai_model(&items[i]) {
                        Some(d) => {
                            let ghost before = list@;
                            let ghost view = d@;
                            list.push(d);
                            assert(descriptors_of(list@) =~= descriptors_of(before).push(view));
                        },
                        None => {
                            proof {
                                lemma_unread_stays(trees, read, i + 1);
                            }
                            return Err(missing_id());
                        },
                    }
                    i = i + 1;
                }
                assert(trees.take(trees.len() as int) =~= trees);
                Ok(list)
            },
            Err(e) => Err(e),
        }
    }
}

impl ModelDiscovery for Manual {
    open spec fn spec_protocol(&self) -> Seq<char> {
        "manual"@
    }

    open spec fn asks(&self, base_url: Seq<char>) -> Option<Seq<char>> {
        None
    }

    open spec fn finds(&self, reply: DiscoveryReplyView) -> Result<
        Seq<DescriptorView>,
        VendorErrorView,
    > {
        Ok(descriptors_of(self.0@))
    }

    open spec fn wf(&self) -> bool {
        descriptors_wf(self.0@)
    }

    fn protocol(&self) -> (name: &'static str) {
        "manual"
    }

    fn url(&self, base_url: &str) -> (url: Option<String>) {
        None
    }

    fn discover(&self, reply: &DiscoveryReply) -> (r: VendorResult<Vec<ModelDescriptor>>) {
        let mut list: Vec<ModelDescriptor> = Vec::new();
        let mut i: usize = 0;
        while i < self.0.len()
            invariant
                i <= self.0@.len(),
                self.wf(),
                list@.len() == i,
                descriptors_wf(list@),
                forall|j: int| 0 <= j < i ==> (#[trigger] list@[j])@ == self.0@[j]@,
            decreases self.0@.len() - i,
        {
            list.push(self.0[i].copy());
            i = i + 1;
        }
        assert(descriptors_of(list@) =~= descriptors_of(self.0@));
        Ok(list)
    }
}

} // verus!
