//! The settings of vendors, and the vendors that they describe.
use crate::models::{opt_text, ApiType};
use crate::server::{auth_headers, headers_of, key_headers};
use crate::table::Table;
use crate::text::{concat, same};
use crate::vendor::{
    descriptors_of, descriptors_wf, models_found, token_in, token_of, AnthropicModelsApi,
    ApiKeyProvider, BearerProvider, DescriptorView, DiscoveryReply, DiscoveryReplyView,
    EnvRefresher, Manual, ModelDescriptor, ModelDiscovery, OpenAiModelsApi, TokenProvider,
    VendorError, VendorErrorView, VendorId, VendorResult,
};
use vstd::prelude::*;

verus! {

/// What a vendor may be able to do.
#[derive(Clone, Copy, Debug, PartialEq, Eq, Hash, Structural)]
pub enum VendorFeature {
    PromptCaching,
    ExtendedCacheTtl,
    ToolUse,
    Thinking,
    Vision,
    Stream,
    Reasoning,
}

/// How it is seen whether a vendor is up.
#[derive(Clone, Debug)]
pub enum HealthCheck {
    Http { path: String },
    Tcp,
    Off,
}

/// The same as a value.
pub enum HealthCheckView {
    Http(Seq<char>),
    Tcp,
    Off,
}

impl View for HealthCheck {
    type V = HealthCheckView;

    open spec fn view(&self) -> HealthCheckView {
        match self {
            HealthCheck::Http { path } => HealthCheckView::Http(path@),
            HealthCheck::Tcp => HealthCheckView::Tcp,
            HealthCheck::Off => HealthCheckView::Off,
        }
    }
}

// ---------------------------------------------------------------------------
// Settings

/// All settings of vendors.
#[derive(Debug)]
pub struct VendorConfigFile {
    pub vendors: Vec<VendorConfigToml>,
}

/// The settings of a vendor.
#[derive(Debug)]
pub struct VendorConfigToml {
    pub id: String,
    pub base_url: String,
    /// The protocol, which is only told.
    pub protocol: String,
    pub auth: VendorAuthToml,
    pub discovery: Option<DiscoveryField>,
    pub health_check: Option<HealthCheckToml>,
    pub disabled_features: Vec<VendorFeature>,
}

/// The protocol where none is set.
pub fn default_protocol() -> (name: String)
    ensures
        name@ == "openai"@,
{
    "openai".to_owned()
}

/// How the models are found: by a word, or in full.
#[derive(Debug)]
pub enum DiscoveryField {
    Shortcut(String),
    Full(VendorDiscoveryToml),
}

/// How a token is had.
#[derive(Debug)]
pub enum VendorAuthToml {
    ApiKey { key: String },
    Bearer {
        token: String,
        interval_secs: u64,
        /// The variable that holds a new token.
        refresh_env: Option<String>,
    },
}

/// How the models are found.
#[derive(Debug)]
pub enum VendorDiscoveryToml {
    AnthropicModelsApi,
    OpenAiModelsApi,
    Manual { models: Vec<ModelDescriptorToml> },
}

/// A model of a list.
#[derive(Debug)]
pub struct ModelDescriptorToml {
    pub id: String,
    pub display_name: String,
    pub context_window: Option<u32>,
}

/// How it is seen whether a vendor is up.
#[derive(Debug)]
pub enum HealthCheckToml {
    Http { path: String },
    Tcp,
    Off,
}

/// How the models are found, as a value.
pub enum DiscoveryView {
    Anthropic,
    OpenAi,
    Manual(Seq<DescriptorView>),
}

/// A model of a list, as it is found.
pub open spec fn listed(model: ModelDescriptorToml) -> DescriptorView {
    DescriptorView {
        id: model.id@,
        display_name: model.display_name@,
        context_window: model.context_window,
        vendor_specific: Map::empty(),
    }
}

/// The models of a list, as they are found.
pub open spec fn all_listed(models: Seq<ModelDescriptorToml>) -> Seq<DescriptorView> {
    models.map_values(|m: ModelDescriptorToml| listed(m))
}

/// How the models are found by the full settings.
pub open spec fn discovery_of(full: VendorDiscoveryToml) -> DiscoveryView {
    match full {
        VendorDiscoveryToml::AnthropicModelsApi => DiscoveryView::Anthropic,
        VendorDiscoveryToml::OpenAiModelsApi => DiscoveryView::OpenAi,
        VendorDiscoveryToml::Manual { models } => DiscoveryView::Manual(all_listed(models@)),
    }
}

/// How the models are found by a word: it names an API, or else the only model.
pub open spec fn discovery_by(word: Seq<char>) -> DiscoveryView {
    if word == "anthropic"@ || word == "anthropic_models_api"@ {
        DiscoveryView::Anthropic
    } else if word == "openai"@ || word == "openai_models_api"@ {
        DiscoveryView::OpenAi
    } else {
        DiscoveryView::Manual(
            seq![
                DescriptorView {
                    id: word,
                    display_name: word,
                    context_window: None,
                    vendor_specific: Map::empty(),
                },
            ],
        )
    }
}

/// How the models are found, by settings that may be there.
pub open spec fn discovery_set(field: Option<DiscoveryField>) -> DiscoveryView {
    match field {
        Some(DiscoveryField::Shortcut(word)) => discovery_by(word@),
        Some(DiscoveryField::Full(full)) => discovery_of(full),
        None => DiscoveryView::Manual(Seq::empty()),
    }
}

impl DiscoveryField {
    /// The full settings.
    pub fn into_inner(self) -> (full: VendorDiscoveryToml)
        ensures
            discovery_of(full) == discovery_set(Some(self)),
    {
        match self {
            DiscoveryField::Shortcut(word) => {
                if same(word.as_str(), "anthropic") || same(
                    word.as_str(),
                    "anthropic_models_api",
                ) {
                    VendorDiscoveryToml::AnthropicModelsApi
                } else if same(word.as_str(), "openai") || same(
                    word.as_str(),
                    "openai_models_api",
                ) {
                    VendorDiscoveryToml::OpenAiModelsApi
                } else {
                    let only = ModelDescriptorToml {
                        id: word.clone(),
                        display_name: word.clone(),
                        context_window: None,
                    };
                    let models: Vec<ModelDescriptorToml> = vec![only];
                    assert(all_listed(models@) =~= seq![listed(only)]);
                    VendorDiscoveryToml::Manual { models }
                }
            },
            DiscoveryField::Full(full) => full,
        }
    }
}

impl ModelDescriptorToml {
    /// The model as it is found.
    pub fn into_descriptor(self) -> (d: ModelDescriptor)
        ensures
            d.wf(),
            d@ == listed(self),
    {
        let mut d = ModelDescriptor::new(self.id.as_str(), self.display_name.as_str());
        d.context_window = self.context_window;
        d
    }
}

/// How it is seen whether a vendor is up, as a value.
pub open spec fn check_set(check: HealthCheckToml) -> HealthCheckView {
    match check {
        HealthCheckToml::Http { path } => HealthCheckView::Http(path@),
        HealthCheckToml::Tcp => HealthCheckView::Tcp,
        HealthCheckToml::Off => HealthCheckView::Off,
    }
}

impl HealthCheckToml {
    pub fn into_check(self) -> (check: HealthCheck)
        ensures
            check@ == check_set(self),
    {
        match self {
            HealthCheckToml::Http { path } => HealthCheck::Http { path },
            HealthCheckToml::Tcp => HealthCheck::Tcp,
            HealthCheckToml::Off => HealthCheck::Off,
        }
    }
}

// ---------------------------------------------------------------------------
// Vendors

/// Whoever has the token of a vendor.
pub enum VendorAuth {
    ApiKey(ApiKeyProvider),
    Bearer(BearerProvider<EnvRefresher>),
}

/// A way to find the models of a vendor.
#[derive(Debug)]
pub enum VendorDiscovery {
    Anthropic(AnthropicModelsApi),
    OpenAi(OpenAiModelsApi),
    Manual(Manual),
}

impl View for VendorDiscovery {
    type V = DiscoveryView;

    open spec fn view(&self) -> DiscoveryView {
        match self {
            VendorDiscovery::Anthropic(_) => DiscoveryView::Anthropic,
            VendorDiscovery::OpenAi(_) => DiscoveryView::OpenAi,
            VendorDiscovery::Manual(list) => DiscoveryView::Manual(descriptors_of(list.0@)),
        }
    }
}

impl VendorDiscovery {
    pub open spec fn wf(&self) -> bool {
        self matches VendorDiscovery::Manual(list) ==> list.wf()
    }

    /// What a reply tells.
    pub open spec fn finds(&self, reply: DiscoveryReplyView) -> Result<
        Seq<DescriptorView>,
        VendorErrorView,
    > {
        match self {
            VendorDiscovery::Anthropic(api) => api.finds(reply),
            VendorDiscovery::OpenAi(api) => api.finds(reply),
            VendorDiscovery::Manual(list) => list.finds(reply),
        }
    }

    pub fn protocol(&self) -> (name: &'static str)
        ensures
            name@ == (match self@ {
                DiscoveryView::Anthropic => "anthropic"@,
                DiscoveryView::OpenAi => "openai"@,
                DiscoveryView::Manual(_) => "manual"@,
            }),
    {
        match self {
            VendorDiscovery::Anthropic(api) => api.protocol(),
            VendorDiscovery::OpenAi(api) => api.protocol(),
            VendorDiscovery::Manual(list) => list.protocol(),
        }
    }

    /// Where the models are asked for, if they are.
    pub fn url(&self, base_url: &str) -> (url: Option<String>)
        ensures
            opt_text(url) == (match self {
                VendorDiscovery::Anthropic(api) => api.asks(base_url@),
                VendorDiscovery::OpenAi(api) => api.asks(base_url@),
                VendorDiscovery::Manual(_) => None,
            }),
    {
        match self {
            VendorDiscovery::Anthropic(api) => api.url(base_url),
            VendorDiscovery::OpenAi(api) => api.url(base_url),
            VendorDiscovery::Manual(_) => None,
        }
    }

    /// The headers that show a token where the models are asked for.
    pub fn headers(&self, token: &str) -> (headers: Vec<(String, String)>)
        ensures
            headers_of(headers@) == (match self@ {
                DiscoveryView::Anthropic => auth_headers(ApiType::AnthropicMessages, token@),
                DiscoveryView::OpenAi => auth_headers(ApiType::OpenAiCompletions, token@),
                DiscoveryView::Manual(_) => Seq::empty(),
            }),
    {
        match self {
            VendorDiscovery::Anthropic(_) => key_headers(ApiType::AnthropicMessages, token),
            VendorDiscovery::OpenAi(_) => key_headers(ApiType::OpenAiCompletions, token),
            VendorDiscovery::Manual(_) => {
                let none: Vec<(String, String)> = Vec::new();
                assert(headers_of(none@) =~= Seq::empty());
                none
            },
        }
    }

    /// The models that a reply tells of. A list that is known beforehand needs
    /// none.
    pub fn discover(&self, reply: &DiscoveryReply) -> (r: VendorResult<Vec<ModelDescriptor>>)
        requires
            self.wf(),
        ensures
            models_found(r) == self.finds(reply@),
    {
        match self {
            VendorDiscovery::Anthropic(api) => api.discover(reply),
            VendorDiscovery::OpenAi(api) => api.discover(reply),
            VendorDiscovery::Manual(list) => list.discover(reply),
        }
    }
}

/// A vendor.
pub struct VendorConfig {
    pub id: VendorId,
    pub base_url: String,
    pub auth: VendorAuth,
    pub discovery: VendorDiscovery,
    pub health_check: Option<HealthCheck>,
    pub disabled_features: Vec<VendorFeature>,
}

/// A check that may be there, as a value.
pub open spec fn opt_check(check: Option<HealthCheck>) -> Option<HealthCheckView> {
    match check {
        Some(check) => Some(check@),
        None => None,
    }
}

/// The same of settings.
pub open spec fn opt_check_set(check: Option<HealthCheckToml>) -> Option<HealthCheckView> {
    match check {
        Some(check) => Some(check_set(check)),
        None => None,
    }
}

/// Whether a token is had as the settings say, from `now` on.
pub open spec fn auth_as_set(
    auth: VendorAuth,
    set: VendorAuthToml,
    id: Seq<char>,
    now: u128,
) -> bool {
    match set {
        VendorAuthToml::ApiKey { key } => auth matches VendorAuth::ApiKey(p) && p.vendor_id@ == id
            && p.key@ == key@,
        VendorAuthToml::Bearer { token, interval_secs, refresh_env } => auth matches
            VendorAuth::Bearer(p) && {
            &&& p.vendor_id@ == id
            &&& p.token@ == token@
            &&& p.started_at == now
            &&& p.interval == interval_secs * NANOS_PER_SEC
            &&& opt_text(p.refresher.variable) == opt_text(refresh_env)
        },
    }
}

/// Nanoseconds in a second.
pub const NANOS_PER_SEC: u128 = 1_000_000_000;

/// Whether a vendor is as its settings say.
pub open spec fn as_set(vendor: VendorConfig, set: VendorConfigToml, now: u128) -> bool {
    &&& vendor.wf()
    &&& vendor.id@ == set.id@
    &&& vendor.base_url@ == set.base_url@
    &&& auth_as_set(vendor.auth, set.auth, set.id@, now)
    &&& vendor.discovery@ == discovery_set(set.discovery)
    &&& opt_check(vendor.health_check) == opt_check_set(set.health_check)
    &&& vendor.disabled_features@ == set.disabled_features@
}

fn listed_models(models: Vec<ModelDescriptorToml>) -> (list: Vec<ModelDescriptor>)
    ensures
        descriptors_wf(list@),
        descriptors_of(list@) == all_listed(models@),
{
    let ghost all = models@;
    let mut rest = models;
    let mut list: Vec<ModelDescriptor> = Vec::new();
    assert(all.skip(0) =~= all);
    while rest.len() > 0
        invariant
            rest@.len() + list@.len() == all.len(),
            rest@ == all.skip(list@.len() as int),
            descriptors_wf(list@),
            forall|j: int| 0 <= j < list@.len() ==> (#[trigger] list@[j])@ == listed(all[j]),
        decreases rest@.len(),
    {
        let ghost n = list@.len() as int;
        assert(rest@[0] == all[n]);
        let model = rest.remove(0);
        assert(rest@ =~= all.skip(n + 1));
        list.push(model.into_descriptor());
    }
    assert(descriptors_of(list@) =~= all_listed(all));
    list
}

impl VendorConfig {
    pub open spec fn wf(&self) -> bool {
        self.discovery.wf()
    }

    /// A vendor without a check, with all features.
    pub fn new(id: &str, base_url: &str, auth: VendorAuth, discovery: VendorDiscovery) -> (vendor:
        VendorConfig)
        ensures
            vendor.id@ == id@,
            vendor.base_url@ == base_url@,
            vendor.auth == auth,
            vendor.discovery == discovery,
            vendor.health_check is None,
            vendor.disabled_features@ == Seq::<VendorFeature>::empty(),
    {
        VendorConfig {
            id: VendorId::new(id),
            base_url: base_url.to_owned(),
            auth,
            discovery,
            health_check: None,
            disabled_features: Vec::new(),
        }
    }

    /// The same with a check.
    pub fn with_health_check(self, check: HealthCheck) -> (vendor: VendorConfig)
        ensures
            vendor == (VendorConfig { health_check: Some(check), ..self }),
    {
        VendorConfig {
            id: self.id,
            base_url: self.base_url,
            auth: self.auth,
            discovery: self.discovery,
            health_check: Some(check),
            disabled_features: self.disabled_features,
        }
    }

    /// The same with a feature less.
    pub fn disable_feature(self, feature: VendorFeature) -> (vendor: VendorConfig)
        ensures
            vendor.disabled_features@ == self.disabled_features@.push(feature),
            vendor == (VendorConfig { disabled_features: vendor.disabled_features, ..self }),
    {
        let mut disabled_features = self.disabled_features;
        disabled_features.push(feature);
        VendorConfig {
            id: self.id,
            base_url: self.base_url,
            auth: self.auth,
            discovery: self.discovery,
            health_check: self.health_check,
            disabled_features,
        }
    }

    /// Whether a feature must not be used.
    pub fn disables(&self, feature: VendorFeature) -> (b: bool)
        ensures
            b == self.disabled_features@.contains(feature),
    {
        let mut i: usize = 0;
        while i < self.disabled_features.len()
            invariant
                i <= self.disabled_features@.len(),
                forall|j: int| 0 <= j < i ==> self.disabled_features@[j] != feature,
            decreases self.disabled_features@.len() - i,
        {
            if self.disabled_features[i] == feature {
                return true;
            }
            i = i + 1;
        }
        false
    }

    /// The vendor that settings describe.
    pub fn from_toml(t: VendorConfigToml, now: u128) -> (r: VendorResult<VendorConfig>)
        ensures
            r matches Ok(vendor) && as_set(vendor, t, now),
    {
        let auth = match t.auth {
            VendorAuthToml::ApiKey { key } => VendorAuth::ApiKey(
                ApiKeyProvider::new(t.id.as_str(), key.as_str()),
            ),
            VendorAuthToml::Bearer { token, interval_secs, refresh_env } => {
                assert(interval_secs * NANOS_PER_SEC <= u128::MAX) by (nonlinear_arith)
                    requires
                        interval_secs <= u64::MAX,
                        NANOS_PER_SEC == 1_000_000_000u128,
                ;
                let interval: u128 = (interval_secs as u128) * NANOS_PER_SEC;
                VendorAuth::Bearer(
                    BearerProvider::new(
                        t.id.as_str(),
                        token.as_str(),
                        now,
                        interval,
                        EnvRefresher { variable: refresh_env },
                    ),
                )
            },
        };
        let discovery = match t.discovery {
            Some(field) => match field.into_inner() {
                VendorDiscoveryToml::AnthropicModelsApi => VendorDiscovery::Anthropic(
                    AnthropicModelsApi,
                ),
                VendorDiscoveryToml::OpenAiModelsApi => VendorDiscovery::OpenAi(OpenAiModelsApi),
                VendorDiscoveryToml::Manual { models } => VendorDiscovery::Manual(
                    Manual(listed_models(models)),
                ),
            },
            None => {
                let none: Vec<ModelDescriptor> = Vec::new();
                assert(descriptors_of(none@) =~= Seq::empty());
                VendorDiscovery::Manual(Manual(none))
            },
        };
        let health_check = match t.health_check {
            Some(check) => Some(check.into_check()),
            None => None,
        };
        Ok(
            VendorConfig {
                id: VendorId(t.id),
                base_url: t.base_url,
                auth,
                discovery,
                health_check,
                disabled_features: t.disabled_features,
            },
        )
    }

    /// A token of this vendor that is good at `now`.
    pub fn token(&mut self, now: u128, env: &Table<String>) -> (r: VendorResult<String>)
        requires
            env.wf(),
        ensures
            gave_token(*old(self), *final(self), now, env@, r),
    {
        match &mut self.auth {
            VendorAuth::ApiKey(p) => p.token(now, env),
            VendorAuth::Bearer(p) => p.token(now, env),
        }
    }

    /// A token of this vendor that was refreshed at once.
    pub fn refresh_now(&mut self, now: u128, env: &Table<String>) -> (r: VendorResult<String>)
        requires
            env.wf(),
        ensures
            gave_new_token(*old(self), *final(self), now, env@, r),
    {
        match &mut self.auth {
            VendorAuth::ApiKey(p) => p.refresh_now(now, env),
            VendorAuth::Bearer(p) => p.refresh_now(now, env),
        }
    }
}

/// The token `r` was refreshed at `now`, and the vendor `before` became
/// `after`. A key is refreshed by reading it again.
pub open spec fn gave_new_token(
    before: VendorConfig,
    after: VendorConfig,
    now: u128,
    env: Map<Seq<char>, String>,
    r: VendorResult<String>,
) -> bool {
    &&& after == (VendorConfig { auth: after.auth, ..before })
    &&& match before.auth {
        VendorAuth::ApiKey(p) => after.auth == before.auth && token_of(r) == Ok::<
            Seq<char>,
            VendorErrorView,
        >(crate::env::resolved(p.key@, env)),
        VendorAuth::Bearer(p) => {
            &&& token_of(r) == Ok::<Seq<char>, VendorErrorView>(
                token_in(opt_text(p.refresher.variable), env),
            )
            &&& r matches Ok(token) && after.auth == VendorAuth::Bearer(p.renewed(token, now))
        },
    }
}

/// The token `r` is good at `now`, and the vendor `before` became `after`: a
/// token that is no longer good was refreshed.
pub open spec fn gave_token(
    before: VendorConfig,
    after: VendorConfig,
    now: u128,
    env: Map<Seq<char>, String>,
    r: VendorResult<String>,
) -> bool {
    match before.auth {
        VendorAuth::Bearer(p) if !p.expired(now) => {
            &&& after == before
            &&& token_of(r) == Ok::<Seq<char>, VendorErrorView>(p.token@)
        },
        _ => gave_new_token(before, after, now, env, r),
    }
}

/// A token that was refreshed is the one that is given for its whole span, and
/// asking for it changes nothing.
pub proof fn new_token_is_given_for_its_span(
    before: VendorConfig,
    refreshed: VendorConfig,
    after: VendorConfig,
    now: u128,
    later: u128,
    env: Map<Seq<char>, String>,
    later_env: Map<Seq<char>, String>,
    first: VendorResult<String>,
    second: VendorResult<String>,
)
    requires
        before.auth matches VendorAuth::Bearer(p) && later - now <= p.interval,
        gave_new_token(before, refreshed, now, env, first),
        gave_token(refreshed, after, later, later_env, second),
    ensures
        token_of(second) == token_of(first),
        after == refreshed,
{
}

/// The vendors, by their names.
pub struct VendorRegistry {
    vendors: Table<VendorConfig>,
}

impl View for VendorRegistry {
    type V = Map<Seq<char>, VendorConfig>;

    closed spec fn view(&self) -> Map<Seq<char>, VendorConfig> {
        self.vendors@
    }
}

/// The vendors of a list, by their names. Of several with one name the last
/// counts.
pub open spec fn by_name(vendors: Seq<VendorConfig>) -> Map<Seq<char>, VendorConfig>
    decreases vendors.len(),
{
    if vendors.len() == 0 {
        Map::empty()
    } else {
        by_name(vendors.drop_last()).insert(vendors.last().id@, vendors.last())
    }
}

impl VendorRegistry {
    /// Each name stands once, for a vendor that is well formed itself.
    pub closed spec fn wf(&self) -> bool {
        &&& self.vendors.wf()
        &&& forall|name: Seq<char>| self@.contains_key(name) ==> (#[trigger] self@[name]).wf()
    }

    /// The registry of these vendors.
    pub fn new(configs: Vec<VendorConfig>) -> (registry: VendorRegistry)
        requires
            forall|i: int| 0 <= i < configs@.len() ==> (#[trigger] configs@[i]).wf(),
        ensures
            registry.wf(),
            registry@ == by_name(configs@),
    {
        let ghost all = configs@;
        let mut vendors: Table<VendorConfig> = Table::new();
        let mut rest = configs;
        assert(all.take(0) =~= Seq::empty());
        assert(all.skip(0) =~= all);
        while rest.len() > 0
            invariant
                vendors.wf(),
                rest@.len() <= all.len(),
                rest@ == all.skip(all.len() - rest@.len()),
                vendors@ == by_name(all.take(all.len() - rest@.len())),
                forall|i: int| 0 <= i < all.len() ==> (#[trigger] all[i]).wf(),
                forall|name: Seq<char>|
                    vendors@.contains_key(name) ==> (#[trigger] vendors@[name]).wf(),
            decreases rest@.len(),
        {
            let ghost n = all.len() - rest@.len();
            assert(all.take(n + 1).drop_last() =~= all.take(n));
            assert(rest@[0] == all[n]);
            let vendor = rest.remove(0);
            assert(rest@ =~= all.skip(n + 1));
            vendors.insert(vendor.id.text(), vendor);
        }
        assert(all.take(all.len() as int) =~= all);
        VendorRegistry { vendors }
    }

    /// The vendor of this name.
    pub fn get(&self, id: &VendorId) -> (vendor: Option<&VendorConfig>)
        requires
            self.wf(),
        ensures
            match vendor {
                Some(vendor) => self@.contains_key(id@) && *vendor == self@[id@],
                None => !self@.contains_key(id@),
            },
    {
        self.vendors.get(id.as_str())
    }

    /// A token of the vendor of this name that is good at `now`. There is none
    /// where there is no such vendor.
    pub fn get_token(&mut self, id: &VendorId, now: u128, env: &Table<String>) -> (r: Option<
        VendorResult<String>,
    >)
        requires
            old(self).wf(),
            env.wf(),
        ensures
            final(self).wf(),
            final(self).names() == old(self).names(),
            match r {
                Some(r) => {
                    &&& old(self)@.contains_key(id@)
                    &&& final(self)@ == old(self)@.insert(id@, final(self)@[id@])
                    &&& gave_token(old(self)@[id@], final(self)@[id@], now, env@, r)
                },
                None => !old(self)@.contains_key(id@) && final(self)@ == old(self)@,
            },
    {
        let ghost before = self@;
        let r = match self.vendors.get_mut(id.as_str()) {
            Some(vendor) => Some(vendor.token(now, env)),
            None => None,
        };
        assert forall|name: Seq<char>| self@.contains_key(name) implies (#[trigger] self@[name]).wf() by {
            assert(before.contains_key(name));
            assert(before[name].wf());
        }
        r
    }

    /// A token of the vendor of this name that was refreshed at once. There is
    /// none where there is no such vendor.
    pub fn refresh_now(&mut self, id: &VendorId, now: u128, env: &Table<String>) -> (r: Option<
        VendorResult<String>,
    >)
        requires
            old(self).wf(),
            env.wf(),
        ensures
            final(self).wf(),
            final(self).names() == old(self).names(),
            match r {
                Some(r) => {
                    &&& old(self)@.contains_key(id@)
                    &&& final(self)@ == old(self)@.insert(id@, final(self)@[id@])
                    &&& gave_new_token(old(self)@[id@], final(self)@[id@], now, env@, r)
                },
                None => !old(self)@.contains_key(id@) && final(self)@ == old(self)@,
            },
    {
        let ghost before = self@;
        let r = match self.vendors.get_mut(id.as_str()) {
            Some(vendor) => Some(vendor.refresh_now(now, env)),
            None => None,
        };
        assert forall|name: Seq<char>| self@.contains_key(name) implies (#[trigger] self@[name]).wf() by {
            assert(before.contains_key(name));
            assert(before[name].wf());
        }
        r
    }

    /// The models of the vendor of this name, as its reply tells them. There
    /// are none where there is no such vendor.
    pub fn discover_models(&self, id: &VendorId, reply: &DiscoveryReply) -> (r: Option<
        VendorResult<Vec<ModelDescriptor>>,
    >)
        requires
            self.wf(),
        ensures
            match r {
                Some(r) => self@.contains_key(id@) && models_found(r) == self@[id@].discovery.finds(
                    reply@,
                ),
                None => !self@.contains_key(id@),
            },
    {
        match self.vendors.get(id.as_str()) {
            Some(vendor) => Some(vendor.discovery.discover(reply)),
            None => None,
        }
    }

    /// All vendors.
    pub fn list(&self) -> (list: Vec<&VendorConfig>)
        requires
            self.wf(),
        ensures
            list@.len() == self.names().len(),
            forall|i: int|
                0 <= i < list@.len() ==> self@.contains_key(#[trigger] self.names()[i])
                    && list@[i] == &self@[self.names()[i]],
    {
        let mut list: Vec<&VendorConfig> = Vec::new();
        let mut i: usize = 0;
        while i < self.vendors.len()
            invariant
                i <= self.names().len(),
                self.wf(),
                list@.len() == i,
                forall|j: int|
                    0 <= j < i ==> self@.contains_key(#[trigger] self.names()[j]) && list@[j]
                        == &self@[self.names()[j]],
            decreases self.names().len() - i,
        {
            list.push(self.vendors.value_at(i));
            i = i + 1;
        }
        list
    }

    /// The names of all vendors, each once.
    pub closed spec fn names(&self) -> Seq<Seq<char>> {
        self.vendors.keys()
    }

    /// The names are those of the vendors, each once.
    pub proof fn lemma_names(&self)
        requires
            self.wf(),
        ensures
            self.names().no_duplicates(),
            forall|name: Seq<char>| self.names().contains(name) <==> self@.contains_key(name),
    {
        self.vendors.lemma_keys();
    }
}

/// Whether vendors are as their settings say, one by one.
pub open spec fn all_as_set(
    vendors: Seq<VendorConfig>,
    set: Seq<VendorConfigToml>,
    now: u128,
) -> bool {
    &&& vendors.len() == set.len()
    &&& forall|i: int| 0 <= i < set.len() ==> as_set(#[trigger] vendors[i], set[i], now)
}

/// The vendors that settings describe, one for each.
fn configs_from(file: VendorConfigFile, now: u128) -> (r: VendorResult<Vec<VendorConfig>>)
    ensures
        r matches Ok(configs) && all_as_set(configs@, file.vendors@, now),
{
    let ghost all = file.vendors@;
    let mut rest = file.vendors;
    let mut configs: Vec<VendorConfig> = Vec::new();
    assert(all.skip(0) =~= all);
    while rest.len() > 0
        invariant
            rest@.len() + configs@.len() == all.len(),
            rest@ == all.skip(configs@.len() as int),
            forall|i: int| 0 <= i < configs@.len() ==> as_set(#[trigger] configs@[i], all[i], now),
        decreases rest@.len(),
    {
        let ghost n = configs@.len() as int;
        assert(rest@[0] == all[n]);
        let set = rest.remove(0);
        assert(rest@ =~= all.skip(n + 1));
        match VendorConfig::from_toml(set, now) {
            Ok(vendor) => {
                configs.push(vendor);
            },
            Err(e) => {
                return Err(e);
            },
        }
    }
    Ok(configs)
}

/// The registry of the vendors that settings describe, or why there is none:
/// the settings could not be read.
pub fn registry_from_toml(file: Result<VendorConfigFile, String>, now: u128) -> (r: VendorResult<
    VendorRegistry,
>)
    ensures
        match file {
            Ok(file) => r matches Ok(registry) && registry.wf() && (exists|
                vendors: Seq<VendorConfig>,
            |
                all_as_set(vendors, file.vendors@, now) && registry@ == #[trigger] by_name(vendors)),
            Err(message) => r matches Err(e) && e@ == VendorErrorView::RefreshFailed(
                "TOML parse error: "@ + message@,
            ),
        },
{
    match file {
        Ok(file) => match configs_from(file, now) {
            Ok(configs) => {
                let ghost vendors = configs@;
                let registry = VendorRegistry::new(configs);
                assert(registry@ == by_name(vendors));
                Ok(registry)
            },
            Err(e) => Err(e),
        },
        Err(message) => Err(
            VendorError::RefreshFailed(concat("TOML parse error: ", message.as_str())),
        ),
    }
}

/// The vendor of a name is the one whose settings come last.
pub proof fn last_settings_of_a_name_count(vendors: Seq<VendorConfig>, i: int)
    requires
        0 <= i < vendors.len(),
        forall|j: int| i < j < vendors.len() ==> (#[trigger] vendors[j]).id@ != vendors[i].id@,
    ensures
        by_name(vendors).contains_key(vendors[i].id@),
        by_name(vendors)[vendors[i].id@] == vendors[i],
    decreases vendors.len(),
{
    if i < vendors.len() - 1 {
        let front = vendors.drop_last();
        assert(front[i] == vendors[i]);
        assert forall|j: int| i < j < front.len() implies (#[trigger] front[j]).id@ != front[i].id@ by {
            assert(front[j] == vendors[j]);
        }
        last_settings_of_a_name_count(front, i);
        assert(vendors[vendors.len() - 1].id@ != vendors[i].id@);
    }
}

} // verus!
